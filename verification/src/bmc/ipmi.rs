//! IPMI backend: what `ipmitool` (lanplus) is asked and what its output means.
//!
//! The password is passed via the `IPMI_PASSWORD` environment variable together
//! with `-E`, so it never appears in the process arguments.
//!
//! Power (`chassis status`) is cheap and runs frequently; health (`sdr list`)
//! walks every sensor over the network and is slow, so it runs on a separate,
//! slower cadence: see [`PowerProbe`] and [`poll_health`].

use vstd::prelude::*;

use super::{
    BmcUser, BmcUserView, BootAction, BootOverride, Health, Overview, PowerAction, PowerPoll,
    PowerPollView, PowerState, SelEntry, SelEntryView,
};
use crate::inventory::{Machine, MachineView};
use crate::text;

verus! {

// --- `Key : Value` fields ------------------------------------------------------

pub open spec fn not_bullet() -> spec_fn(char) -> bool {
    |c: char| c != '-' && c != '*' && c != '•'
}

/// `s` without the list bullets in front.
pub open spec fn without_bullets(s: Seq<char>) -> Seq<char> {
    s.skip(text::find(s, not_bullet()))
}

/// What the line says of `key`: the trimmed text behind its first colon, if the
/// text before it is the key (in any case, with or without a bullet) and there
/// is a value at all.
pub open spec fn line_field(line: Seq<char>, key: Seq<char>) -> Option<Seq<char>> {
    match text::split_once(line, ':') {
        Some((k, v)) => if text::same_letters(
            text::trim(without_bullets(text::trim(k))),
            key,
        ) && text::trim(v).len() > 0 {
            Some(text::trim(v))
        } else {
            None
        },
        None => None,
    }
}

/// What the first of the lines that says something of `key` says.
pub open spec fn first_field(lines: Seq<Seq<char>>, key: Seq<char>) -> Option<Seq<char>>
    decreases lines.len(),
{
    if lines.len() == 0 {
        None
    } else {
        match line_field(lines[0], key) {
            Some(v) => Some(v),
            None => first_field(lines.drop_first(), key),
        }
    }
}

/// What the output says of `key`.
pub open spec fn field(out: Seq<char>, key: Seq<char>) -> Option<Seq<char>> {
    first_field(text::lines(out), key)
}

fn drop_bullets(v: &Vec<char>) -> (r: Vec<char>)
    ensures
        r@ == without_bullets(v@),
{
    let mut i: usize = 0;
    while i < v.len() && (v[i] == '-' || v[i] == '*' || v[i] == '•')
        invariant
            i <= v@.len(),
            forall|j: int| 0 <= j < i ==> !(not_bullet())(#[trigger] v@[j]),
        decreases v@.len() - i,
    {
        i += 1;
    }
    proof {
        text::lemma_find(v@, not_bullet(), i as int);
        assert(v@.subrange(i as int, v@.len() as int) == v@.skip(i as int));
    }
    text::slice_of(v, i, v.len())
}

fn field_of_line(line: &Vec<char>, key: &str) -> (r: Option<Vec<char>>)
    ensures
        match r {
            Some(v) => line_field(line@, key@) == Some(v@),
            None => line_field(line@, key@) is None,
        },
{
    match text::halves(line, ':') {
        Some((k, v)) => {
            let k = text::trimmed(&drop_bullets(&text::trimmed(&k)));
            let v = text::trimmed(&v);
            if text::spells_any_case(&k, key) && v.len() > 0 {
                Some(v)
            } else {
                None
            }
        },
        None => None,
    }
}

fn field_chars(out: &str, key: &str) -> (r: Option<Vec<char>>)
    ensures
        match r {
            Some(v) => field(out@, key@) == Some(v@),
            None => field(out@, key@) is None,
        },
{
    let lines = text::lines_of(&text::chars_of(out));
    let ghost all = text::texts(lines@);
    assert(all.skip(0) == all);
    for i in 0..lines.len()
        invariant
            all == text::texts(lines@),
            all == text::lines(out@),
            first_field(all, key@) == first_field(all.skip(i as int), key@),
    {
        assert(all.skip(i as int)[0] == lines@[i as int]@);
        assert(all.skip(i as int).drop_first() == all.skip(i + 1));
        let found = field_of_line(&lines[i], key);
        if found.is_some() {
            return found;
        }
    }
    None
}

/// Extract a `Key : Value` field (case-insensitive key, first line with a
/// value). Tolerates a leading bullet on the key, as ipmitool uses for the
/// boot-flags block (`   - Boot Device Selector : Force PXE`).
pub fn parse_field(out: &str, key: &str) -> (r: Option<String>)
    ensures
        text::text_of(r) == field(out@, key@),
{
    match field_chars(out, key) {
        Some(v) => Some(text::string_of(&v)),
        None => None,
    }
}

proof fn lemma_trim_end_behind(a: Seq<char>, b: Seq<char>)
    requires
        text::trim_end(b).len() > 0,
    ensures
        text::trim_end(a + b) == a + text::trim_end(b),
    decreases b.len(),
{
    assert((a + b).last() == b.last());
    if text::is_white(b.last()) {
        assert((a + b).drop_last() =~= a + b.drop_last());
        lemma_trim_end_behind(a, b.drop_last());
    }
}

/// Cutting off the white space behind leaves a text that starts with something
/// else its start, and has nothing more to cut off.
proof fn lemma_trim_end_start(s: Seq<char>)
    requires
        s.len() > 0,
        !text::is_white(s[0]),
    ensures
        text::trim_end(s).len() > 0,
        text::trim_end(s)[0] == s[0],
        text::trim_end(text::trim_end(s)) == text::trim_end(s),
    decreases s.len(),
{
    if text::is_white(s.last()) {
        lemma_trim_end_start(s.drop_last());
    }
}

/// A leading bullet on the key does not matter: a line in a bulleted block says
/// of each key what the plain line says.
pub proof fn a_bullet_does_not_matter(name: Seq<char>, value: Seq<char>, key: Seq<char>)
    requires
        name.len() > 0,
        !text::is_white(name[0]),
        (not_bullet())(name[0]),
        forall|i: int| 0 <= i < name.len() ==> #[trigger] name[i] != ':',
    ensures
        line_field("   - "@ + name + ":"@ + value, key) == line_field(name + ":"@ + value, key),
{
    reveal_strlit("   - ");
    reveal_strlit(":");
    let bullet = "   - "@;
    let front = bullet + name;
    let bulleted = front + ":"@ + value;
    let plain = name + ":"@ + value;
    assert(bulleted[front.len() as int] == ':');
    assert(plain[name.len() as int] == ':');
    assert forall|j: int| 0 <= j < front.len() implies bulleted[j] != ':' by {
        if j >= 5 {
            assert(bulleted[j] == name[j - 5]);
        }
    }
    assert forall|j: int| 0 <= j < name.len() implies plain[j] != ':' by {
        assert(plain[j] == name[j]);
    }
    text::lemma_find(bulleted, text::equals(':'), front.len() as int);
    text::lemma_find(plain, text::equals(':'), name.len() as int);
    assert(bulleted.take(front.len() as int) =~= front);
    assert(plain.take(name.len() as int) =~= name);
    assert(bulleted.skip(front.len() as int + 1) =~= value);
    assert(plain.skip(name.len() as int + 1) =~= value);

    // The plain key.
    let core = text::trim_end(name);
    lemma_trim_end_start(name);
    text::lemma_find(name, text::not_white(), 0);
    assert(name.skip(0) =~= name);
    assert(text::trim(name) == core);
    text::lemma_find(core, not_bullet(), 0);
    assert(core.skip(0) =~= core);
    text::lemma_find(core, text::not_white(), 0);
    assert(text::trim(without_bullets(text::trim(name))) == core);

    // The bulleted one.
    assert(front[3] == '-');
    text::lemma_find(front, text::not_white(), 3);
    let dash = seq!['-', ' '];
    assert(front.skip(3) =~= dash + name);
    lemma_trim_end_behind(dash, name);
    assert(text::trim(front) == dash + core);
    assert((dash + core)[1] == ' ');
    text::lemma_find(dash + core, not_bullet(), 1);
    let blank = seq![' '];
    assert((dash + core).skip(1) =~= blank + core);
    assert((blank + core)[1] == core[0]);
    text::lemma_find(blank + core, text::not_white(), 1);
    assert((blank + core).skip(1) =~= core);
    assert(text::trim(without_bullets(text::trim(front))) == core);
}

// --- chassis status ------------------------------------------------------------

/// The power state that `chassis status` output tells.
pub open spec fn power_in(out: Seq<char>) -> PowerState {
    match field(out, "System Power"@) {
        Some(v) => {
            let w = text::lower(text::trim(v));
            if w == "on"@ {
                PowerState::On
            } else if w == "off"@ {
                PowerState::Off
            } else {
                PowerState::Unknown
            }
        },
        None => {
            let l = text::lower(out);
            if text::has(l, "is on"@) {
                PowerState::On
            } else if text::has(l, "is off"@) {
                PowerState::Off
            } else {
                PowerState::Unknown
            }
        },
    }
}

/// Power from `chassis status` ("System Power : on"), falling back to the
/// `chassis power status` phrasing ("Chassis Power is on") for robustness.
pub fn parse_power(out: &str) -> (r: PowerState)
    ensures
        r == power_in(out@),
{
    match field_chars(out, "System Power") {
        Some(v) => {
            let w = text::to_lower(&text::trimmed(&v));
            if text::spells(&w, "on") {
                PowerState::On
            } else if text::spells(&w, "off") {
                PowerState::Off
            } else {
                PowerState::Unknown
            }
        },
        None => {
            let l = text::to_lower(&text::chars_of(out));
            if text::contains(&l, "is on") {
                PowerState::On
            } else if text::contains(&l, "is off") {
                PowerState::Off
            } else {
                PowerState::Unknown
            }
        },
    }
}

/// Whether the output sets the flag `key`.
pub open spec fn flag(out: Seq<char>, key: Seq<char>) -> bool {
    match field(out, key) {
        Some(v) => text::same_letters(text::trim(v), "true"@),
        None => false,
    }
}

/// Whether any of the five chassis faults is set.
pub open spec fn fault_in(out: Seq<char>) -> bool {
    ||| flag(out, "Power Overload"@)
    ||| flag(out, "Main Power Fault"@)
    ||| flag(out, "Power Control Fault"@)
    ||| flag(out, "Drive Fault"@)
    ||| flag(out, "Cooling/Fan Fault"@)
}

fn parse_flag(out: &str, key: &str) -> (r: bool)
    ensures
        r == flag(out@, key@),
{
    match field_chars(out, key) {
        Some(v) => text::spells_any_case(&text::trimmed(&v), "true"),
        None => false,
    }
}

/// Any chassis fault flag set, from `chassis status`.
pub fn parse_fault(out: &str) -> (r: bool)
    ensures
        r == fault_in(out@),
{
    parse_flag(out, "Power Overload") || parse_flag(out, "Main Power Fault") || parse_flag(
        out,
        "Power Control Fault",
    ) || parse_flag(out, "Drive Fault") || parse_flag(out, "Cooling/Fan Fault")
}

/// Whether the output tells of an identify LED that is not off.
pub open spec fn identify_in(out: Seq<char>) -> bool {
    match field(out, "Chassis Identify State"@) {
        Some(v) => !text::same_letters(text::trim(v), "off"@),
        None => false,
    }
}

/// Identify (locate) LED on/blinking, from `chassis status`.
pub fn parse_identify(out: &str) -> (r: bool)
    ensures
        r == identify_in(out@),
{
    match field_chars(out, "Chassis Identify State") {
        Some(v) => !text::spells_any_case(&text::trimmed(&v), "off"),
        None => false,
    }
}

// --- boot override -------------------------------------------------------------

/// The override that a boot device selector names.
pub open spec fn selector_override(sel: Seq<char>) -> BootOverride {
    let s = text::lower(sel);
    if text::has(s, "no override"@) {
        BootOverride::Unset
    } else if text::has(s, "pxe"@) {
        BootOverride::Pxe
    } else if text::has(s, "hard-drive"@) || text::has(s, "hard drive"@) {
        BootOverride::Disk
    } else if text::has(s, "bios"@) {
        BootOverride::Bios
    } else if text::has(s, "cd"@) || text::has(s, "dvd"@) {
        BootOverride::Cd
    } else {
        BootOverride::Other
    }
}

/// The override that `chassis bootparam get 5` output tells.
pub open spec fn boot_in(out: Seq<char>) -> BootOverride {
    if text::has(text::lower(out), "boot flag invalid"@) {
        BootOverride::Unset
    } else {
        match field(out, "Boot Device Selector"@) {
            Some(sel) => selector_override(sel),
            None => BootOverride::Unset,
        }
    }
}

/// Boot override from `chassis bootparam get 5`. The flags live in a bulleted
/// block (`   - Boot Device Selector : Force PXE`), and a separate line marks
/// whether the flags are valid. If the BMC reports the flags invalid (e.g. the
/// one-time override timed out or was consumed by a boot), there's no active
/// override regardless of the leftover selector.
pub fn parse_boot(out: &str) -> (r: BootOverride)
    ensures
        r == boot_in(out@),
{
    let l = text::to_lower(&text::chars_of(out));
    if text::contains(&l, "boot flag invalid") {
        return BootOverride::Unset;
    }
    match field_chars(out, "Boot Device Selector") {
        None => BootOverride::Unset,
        Some(sel) => {
            let s = text::to_lower(&sel);
            if text::contains(&s, "no override") {
                BootOverride::Unset
            } else if text::contains(&s, "pxe") {
                BootOverride::Pxe
            } else if text::contains(&s, "hard-drive") || text::contains(&s, "hard drive") {
                BootOverride::Disk
            } else if text::contains(&s, "bios") {
                BootOverride::Bios
            } else if text::contains(&s, "cd") || text::contains(&s, "dvd") {
                BootOverride::Cd
            } else {
                BootOverride::Other
            }
        },
    }
}

/// Flags that the BMC reports as invalid mean no override, whatever the selector
/// says.
pub proof fn invalid_flags_mean_no_override(out: Seq<char>)
    requires
        text::has(text::lower(out), "boot flag invalid"@),
    ensures
        boot_in(out) == BootOverride::Unset,
{
}

// --- serial --------------------------------------------------------------------

pub open spec fn serial_in(fru: Seq<char>) -> Option<Seq<char>> {
    match field(fru, "Product Serial"@) {
        Some(v) => Some(v),
        None => field(fru, "Board Serial"@),
    }
}

/// Prefer the product serial (node identity) over the board serial.
pub fn parse_serial(fru: &str) -> (r: Option<String>)
    ensures
        text::text_of(r) == serial_in(fru@),
{
    match parse_field(fru, "Product Serial") {
        Some(v) => Some(v),
        None => parse_field(fru, "Board Serial"),
    }
}

pub open spec fn power_word(p: PowerState) -> Seq<char> {
    match p {
        PowerState::On => "on"@,
        PowerState::Off => "off"@,
        PowerState::Unknown => "unknown"@,
    }
}

pub fn power_text(p: PowerState) -> (r: String)
    ensures
        r@ == power_word(p),
{
    match p {
        PowerState::On => "on".to_owned(),
        PowerState::Off => "off".to_owned(),
        PowerState::Unknown => "unknown".to_owned(),
    }
}

// --- user list -----------------------------------------------------------------

pub open spec fn is_flag_word(w: Seq<char>) -> bool {
    text::same_letters(w, "true"@) || text::same_letters(w, "false"@)
}

/// The account that a line of `user list` output describes: a numeric id, a
/// name (a word that is no truth value), three truth values and a privilege of
/// one word or more. Header and unused slots describe none.
pub open spec fn user_in(line: Seq<char>) -> Option<BmcUserView> {
    let t = text::words(line);
    if t.len() >= 6 && text::is_number(t[0]) && !is_flag_word(t[1]) && is_flag_word(t[2])
        && is_flag_word(t[3]) && is_flag_word(t[4]) {
        Some(
            BmcUserView {
                id: t[0],
                name: t[1],
                privilege: text::joined(t.skip(5), " "@),
                enabled: text::same_letters(t[4], "true"@),
            },
        )
    } else {
        None
    }
}

/// The accounts that the lines describe, in order.
pub open spec fn users_in(lines: Seq<Seq<char>>) -> Seq<BmcUserView>
    decreases lines.len(),
{
    if lines.len() == 0 {
        seq![]
    } else {
        match user_in(lines.last()) {
            Some(u) => users_in(lines.drop_last()).push(u),
            None => users_in(lines.drop_last()),
        }
    }
}

fn reads_as_flag(w: &Vec<char>) -> (r: bool)
    ensures
        r == is_flag_word(w@),
{
    text::spells_any_case(w, "true") || text::spells_any_case(w, "false")
}

fn user_of_line(line: &Vec<char>) -> (r: Option<BmcUser>)
    ensures
        match r {
            Some(u) => user_in(line@) == Some(u@),
            None => user_in(line@) is None,
        },
{
    let t = text::words_of(line);
    let ghost w = text::texts(t@);
    assert(w == text::words(line@));
    assert(w.len() == t@.len());
    if t.len() < 6 {
        return None;
    }
    assert(w[0] == t@[0]@ && w[1] == t@[1]@ && w[2] == t@[2]@ && w[3] == t@[3]@ && w[4] == t@[4]@);
    if !text::reads_as_number(&t[0]) || reads_as_flag(&t[1]) || !reads_as_flag(&t[2])
        || !reads_as_flag(&t[3]) || !reads_as_flag(&t[4]) {
        return None;
    }
    Some(
        BmcUser {
            id: text::string_of(&t[0]),
            name: text::string_of(&t[1]),
            privilege: text::join_words(&t, 5),
            enabled: text::spells_any_case(&t[4], "true"),
        },
    )
}

/// Parse `ipmitool user list <ch>` (whitespace-aligned columns):
/// `ID  Name  Callin  Link Auth  IPMI Msg  Channel Priv Limit`.
/// Empty (unused) slots, without a name, are skipped. The name column can be
/// absent: it is there if the word after the id is no truth value.
pub fn parse_users(out: &str) -> (r: Vec<BmcUser>)
    ensures
        super::user_views(r@) == users_in(text::lines(out@)),
{
    let lines = text::lines_of(&text::chars_of(out));
    let ghost all = text::texts(lines@);
    let mut users: Vec<BmcUser> = Vec::new();
    assert(super::user_views(users@) == users_in(all.take(0)));
    for i in 0..lines.len()
        invariant
            all == text::texts(lines@),
            super::user_views(users@) == users_in(all.take(i as int)),
    {
        assert(all.take(i + 1).drop_last() == all.take(i as int));
        assert(all.take(i + 1).last() == lines@[i as int]@);
        match user_of_line(&lines[i]) {
            Some(u) => {
                users.push(u);
                assert(super::user_views(users@) == users_in(all.take(i as int)).push(u@));
            },
            None => {},
        }
    }
    assert(all.take(all.len() as int) == all);
    users
}

proof fn lemma_words_are_not_empty(s: Seq<char>)
    ensures
        forall|i: int| 0 <= i < text::words(s).len() ==> (#[trigger] text::words(s)[i]).len() > 0,
    decreases s.len(),
{
    let i = text::find(s, text::white());
    if s.len() > 0 {
        if 0 < i <= s.len() {
            lemma_words_are_not_empty(s.skip(i));
            let rest = text::words(s.skip(i));
            assert(text::words(s) == seq![s.take(i)] + rest);
            assert forall|k: int| 0 <= k < text::words(s).len() implies (#[trigger] text::words(
                s,
            )[k]).len() > 0 by {
                if k > 0 {
                    assert(text::words(s)[k] == rest[k - 1]);
                }
            }
        } else {
            lemma_words_are_not_empty(s.drop_first());
            assert(text::words(s) == text::words(s.drop_first()));
        }
    }
}

/// Unused slots and the header are skipped: every account that is listed has a
/// number and a name.
pub proof fn listed_accounts_are_numbered_and_named(lines: Seq<Seq<char>>, k: int)
    requires
        0 <= k < users_in(lines).len(),
    ensures
        text::is_number(users_in(lines)[k].id),
        users_in(lines)[k].name.len() > 0,
    decreases lines.len(),
{
    let front = lines.drop_last();
    if k < users_in(front).len() {
        listed_accounts_are_numbered_and_named(front, k);
    } else {
        lemma_words_are_not_empty(lines.last());
    }
}

// --- event log -----------------------------------------------------------------

/// Best-effort severity of an event. A deassertion is a recovery.
pub open spec fn severity_of(event: Seq<char>, dir: Seq<char>) -> Health {
    let t = text::lower(event);
    if text::same_letters(dir, "Deasserted"@) {
        Health::Nominal
    } else if text::has(t, "non-recoverable"@) || text::has(t, "critical"@) || text::has(
        t,
        "failure"@,
    ) || text::has(t, "fault"@) || text::has(t, "uncorrectable"@) {
        Health::Critical
    } else if text::has(t, "non-critical"@) || text::has(t, "warning"@) || text::has(
        t,
        "degraded"@,
    ) || text::has(t, "predictive"@) {
        Health::Warning
    } else {
        Health::Unknown
    }
}

/// Best-effort severity from the event text (ipmitool has no clean severity
/// column). A deassertion is a recovery.
pub fn sel_severity(event: &str, dir: &str) -> (r: Health)
    ensures
        r == severity_of(event@, dir@),
{
    let d = text::chars_of(dir);
    if text::spells_any_case(&d, "Deasserted") {
        return Health::Nominal;
    }
    let t = text::to_lower(&text::chars_of(event));
    if text::contains(&t, "non-recoverable") || text::contains(&t, "critical") || text::contains(
        &t,
        "failure",
    ) || text::contains(&t, "fault") || text::contains(&t, "uncorrectable") {
        Health::Critical
    } else if text::contains(&t, "non-critical") || text::contains(&t, "warning") || text::contains(
        &t,
        "degraded",
    ) || text::contains(&t, "predictive") {
        Health::Warning
    } else {
        Health::Unknown
    }
}

/// A deassertion is a recovery, whatever the event was.
pub proof fn a_deassertion_is_a_recovery(event: Seq<char>, dir: Seq<char>)
    requires
        text::same_letters(dir, "Deasserted"@),
    ensures
        severity_of(event, dir) == Health::Nominal,
{
}

/// The record made of its fields.
pub open spec fn record(
    id: Seq<char>,
    when: Seq<char>,
    sensor: Seq<char>,
    event: Seq<char>,
    dir: Seq<char>,
) -> SelEntryView {
    SelEntryView {
        id,
        when,
        sensor,
        text: if dir.len() == 0 {
            event
        } else {
            event + " ("@ + text::lower(dir) + ")"@
        },
        severity: severity_of(event, dir),
    }
}

/// The record that a line of `sel elist` output holds, by the number of its
/// fields: six or more have separate date and time, five a merged timestamp,
/// four no direction. With fewer it holds none.
pub open spec fn entry_in(line: Seq<char>) -> Option<SelEntryView> {
    let p = text::split(text::trim(line), '|').map_values(|f: Seq<char>| text::trim(f));
    if p.len() >= 6 {
        Some(record(p[0], p[1] + " "@ + p[2], p[3], p[4], p[5]))
    } else if p.len() == 5 {
        Some(record(p[0], p[1], p[2], p[3], p[4]))
    } else if p.len() == 4 {
        Some(record(p[0], p[1], p[2], p[3], Seq::empty()))
    } else {
        None
    }
}

/// The records that the lines hold, in order.
pub open spec fn entries_in(lines: Seq<Seq<char>>) -> Seq<SelEntryView>
    decreases lines.len(),
{
    if lines.len() == 0 {
        seq![]
    } else {
        match entry_in(lines.last()) {
            Some(e) => entries_in(lines.drop_last()).push(e),
            None => entries_in(lines.drop_last()),
        }
    }
}

fn make_record(id: String, when: String, sensor: String, event: String, dir: &Vec<char>) -> (r:
    SelEntry)
    ensures
        r@ == record(id@, when@, sensor@, event@, dir@),
{
    let d = text::string_of(dir);
    let severity = sel_severity(event.as_str(), d.as_str());
    let shown = if dir.len() == 0 {
        event
    } else {
        let low = text::string_of(&text::to_lower(dir));
        let mut s = text::join3(event.as_str(), " (", low.as_str());
        s.append(")");
        s
    };
    SelEntry { id, when, sensor, text: shown, severity }
}

fn entry_of_line(line: &Vec<char>) -> (r: Option<SelEntry>)
    ensures
        match r {
            Some(e) => entry_in(line@) == Some(e@),
            None => entry_in(line@) is None,
        },
{
    let parts = text::split_at(&text::trimmed(line), '|');
    let ghost raw = text::split(text::trim(line@), '|');
    let ghost p = raw.map_values(|f: Seq<char>| text::trim(f));
    assert(text::texts(parts@) == raw);
    assert(raw.len() == parts@.len());
    let n = parts.len();
    if n < 4 {
        return None;
    }
    assert(forall|i: int| 0 <= i < n ==> #[trigger] p[i] == text::trim(parts@[i]@)) by {
        assert forall|i: int| 0 <= i < n implies #[trigger] p[i] == text::trim(parts@[i]@) by {
            assert(text::texts(parts@)[i] == parts@[i]@);
        }
    }
    let f0 = text::string_of(&text::trimmed(&parts[0]));
    let f1 = text::string_of(&text::trimmed(&parts[1]));
    let f2 = text::string_of(&text::trimmed(&parts[2]));
    let f3 = text::string_of(&text::trimmed(&parts[3]));
    if n >= 6 {
        let f4 = text::string_of(&text::trimmed(&parts[4]));
        let dir = text::trimmed(&parts[5]);
        let when = text::join3(f1.as_str(), " ", f2.as_str());
        Some(make_record(f0, when, f3, f4, &dir))
    } else if n == 5 {
        let dir = text::trimmed(&parts[4]);
        Some(make_record(f0, f1, f2, f3, &dir))
    } else {
        let dir: Vec<char> = Vec::new();
        Some(make_record(f0, f1, f2, f3, &dir))
    }
}

/// Parse `sel elist` output (pipe-delimited records). The common shape is
/// `id | date | time | sensor | event | assert/deassert`; pre-init records
/// merge the timestamp into one field. Non-record lines (e.g. "SEL has no
/// entries") have too few fields and are skipped.
pub fn parse_sel(out: &str) -> (r: Vec<SelEntry>)
    ensures
        super::entry_views(r@) == entries_in(text::lines(out@)),
{
    let lines = text::lines_of(&text::chars_of(out));
    let ghost all = text::texts(lines@);
    let mut entries: Vec<SelEntry> = Vec::new();
    assert(super::entry_views(entries@) == entries_in(all.take(0)));
    for i in 0..lines.len()
        invariant
            all == text::texts(lines@),
            super::entry_views(entries@) == entries_in(all.take(i as int)),
    {
        assert(all.take(i + 1).drop_last() == all.take(i as int));
        assert(all.take(i + 1).last() == lines@[i as int]@);
        match entry_of_line(&lines[i]) {
            Some(e) => {
                entries.push(e);
                assert(super::entry_views(entries@) == entries_in(all.take(i as int)).push(e@));
            },
            None => {},
        }
    }
    assert(all.take(all.len() as int) == all);
    entries
}

// --- sensors -------------------------------------------------------------------

/// The state that a line of `sdr list` output (`name | reading | status`) tells.
/// Sensors without a reading and statuses nobody knows tell none.
pub open spec fn level_in(line: Seq<char>) -> Option<Health> {
    let p = text::split(line, '|');
    if p.len() < 3 {
        None
    } else {
        let st = text::lower(text::trim(p[2]));
        if st == "ok"@ {
            Some(Health::Nominal)
        } else if st == "nc"@ || st == "lnc"@ || st == "unc"@ || st == "warning"@ {
            Some(Health::Warning)
        } else if st == "cr"@ || st == "lcr"@ || st == "ucr"@ || st == "nr"@ || st == "lnr"@ || st
            == "unr"@ || st == "critical"@ {
            Some(Health::Critical)
        } else {
            None
        }
    }
}

/// The worst state that the lines tell, if any tells one.
pub open spec fn worst_in(lines: Seq<Seq<char>>) -> Option<Health>
    decreases lines.len(),
{
    if lines.len() == 0 {
        None
    } else {
        match (worst_in(lines.drop_last()), level_in(lines.last())) {
            (Some(a), Some(b)) => Some(a.worse(b)),
            (None, Some(b)) => Some(b),
            (a, None) => a,
        }
    }
}

/// The health that `sdr list` output tells.
pub open spec fn health_in(out: Seq<char>) -> Health {
    match worst_in(text::lines(out)) {
        Some(h) => h,
        None => Health::Unknown,
    }
}

fn level_of_line(line: &Vec<char>) -> (r: Option<Health>)
    ensures
        r == level_in(line@),
{
    let parts = text::split_at(line, '|');
    assert(text::texts(parts@).len() == parts@.len());
    if parts.len() < 3 {
        return None;
    }
    assert(text::texts(parts@)[2] == parts@[2]@);
    let st = text::to_lower(&text::trimmed(&parts[2]));
    if text::spells(&st, "ok") {
        Some(Health::Nominal)
    } else if text::spells(&st, "nc") || text::spells(&st, "lnc") || text::spells(&st, "unc")
        || text::spells(&st, "warning") {
        Some(Health::Warning)
    } else if text::spells(&st, "cr") || text::spells(&st, "lcr") || text::spells(&st, "ucr")
        || text::spells(&st, "nr") || text::spells(&st, "lnr") || text::spells(&st, "unr")
        || text::spells(&st, "critical") {
        Some(Health::Critical)
    } else {
        None
    }
}

/// Derive a single health summary from `sdr list` (pipe-delimited:
/// `name | reading | status`). Takes the worst sensor state.
pub fn parse_health(sdr: &str) -> (r: Health)
    ensures
        r == health_in(sdr@),
{
    let lines = text::lines_of(&text::chars_of(sdr));
    let ghost all = text::texts(lines@);
    let mut worst: Health = Health::Nominal;
    let mut saw_any: bool = false;
    for i in 0..lines.len()
        invariant
            all == text::texts(lines@),
            saw_any ==> worst_in(all.take(i as int)) == Some(worst),
            !saw_any ==> worst_in(all.take(i as int)) is None && worst == Health::Nominal,
    {
        assert(all.take(i + 1).drop_last() == all.take(i as int));
        assert(all.take(i + 1).last() == lines@[i as int]@);
        match level_of_line(&lines[i]) {
            Some(level) => {
                saw_any = true;
                worst = worst.worst(level);
            },
            None => {},
        }
    }
    assert(all.take(all.len() as int) == all);
    if saw_any {
        worst
    } else {
        Health::Unknown
    }
}

/// The health summary is the worst sensor state: unknown exactly if no sensor tells
/// one, else the state of some sensor, and no sensor tells a worse one.
pub proof fn health_is_the_worst_sensor(out: Seq<char>)
    ensures
        (forall|i: int|
            0 <= i < text::lines(out).len() ==> level_in(#[trigger] text::lines(out)[i]) is None)
            ==> health_in(out) == Health::Unknown,
        forall|i: int|
            0 <= i < text::lines(out).len() && level_in(#[trigger] text::lines(out)[i]) is Some
                ==> health_in(out) != Health::Unknown && health_in(out).level() >= level_in(text::lines(out)[i])->0.level(),
        health_in(out) != Health::Unknown ==> exists|i: int|
            0 <= i < text::lines(out).len() && level_in(#[trigger] text::lines(out)[i]) == Some(
                health_in(out),
            ),
{
    lemma_worst(text::lines(out));
}

proof fn lemma_worst(lines: Seq<Seq<char>>)
    ensures
        worst_in(lines) is None <==> forall|i: int|
            0 <= i < lines.len() ==> level_in(#[trigger] lines[i]) is None,
        forall|i: int|
            0 <= i < lines.len() && level_in(#[trigger] lines[i]) is Some ==> worst_in(lines) is Some
                && worst_in(lines)->0.level() >= level_in(lines[i])->0.level(),
        worst_in(lines) is Some ==> exists|i: int|
            0 <= i < lines.len() && level_in(#[trigger] lines[i]) == worst_in(lines),
    decreases lines.len(),
{
    if lines.len() > 0 {
        let front = lines.drop_last();
        lemma_worst(front);
        assert(forall|i: int| 0 <= i < front.len() ==> front[i] == lines[i]);
        assert(lines[lines.len() - 1] == lines.last());
        if worst_in(lines) is Some {
            if worst_in(front) is Some && worst_in(lines) == worst_in(front) {
                let k = choose|k: int|
                    0 <= k < front.len() && level_in(#[trigger] front[k]) == worst_in(front);
                assert(level_in(lines[k]) == worst_in(lines));
            } else {
                assert(level_in(lines[lines.len() - 1]) == worst_in(lines));
            }
        }
        if worst_in(lines) is None {
            assert forall|i: int| 0 <= i < lines.len() implies level_in(#[trigger] lines[i]) is None by {
                if i < front.len() {
                    assert(level_in(front[i]) is None);
                }
            }
        }
        assert forall|i: int|
            0 <= i < lines.len() && level_in(#[trigger] lines[i]) is Some implies worst_in(lines) is Some
            && worst_in(lines)->0.level() >= level_in(lines[i])->0.level() by {
            if i < front.len() {
                assert(level_in(front[i]) is Some);
            }
        }
        if forall|i: int| 0 <= i < lines.len() ==> level_in(#[trigger] lines[i]) is None {
            assert forall|i: int| 0 <= i < front.len() implies level_in(#[trigger] front[i]) is None by {
                assert(level_in(lines[i]) is None);
            }
            assert(level_in(lines[lines.len() - 1]) is None);
        }
    }
}

// --- running ipmitool ----------------------------------------------------------

/// What a finished `ipmitool` process left behind.
pub struct CommandOutput {
    /// Whether it exited with status zero.
    pub success: bool,
    pub stdout: Vec<u8>,
    pub stderr: Vec<u8>,
}

/// The text of bytes that need not be valid UTF-8.
pub uninterp spec fn lossy_text(bytes: Seq<u8>) -> Seq<char>;

/// Trusted: `String::from_utf8_lossy` of the standard library, which depends on
/// the bytes alone. Valid UTF-8 comes out as the text it encodes; of other bytes
/// nothing more is claimed.
#[verifier::external_body]
fn from_utf8_lossy(bytes: &Vec<u8>) -> (r: String)
    ensures
        r@ == lossy_text(bytes@),
        vstd::utf8::valid_utf8(bytes@) ==> r@ == vstd::utf8::decode_utf8(bytes@),
{
    String::from_utf8_lossy(bytes).into_owned()
}

/// The arguments of one `ipmitool` run for a machine. The password is not among
/// what they are made of.
pub open spec fn arguments(
    host: Seq<char>,
    username: Seq<char>,
    command: Seq<Seq<char>>,
) -> Seq<Seq<char>> {
    seq!["-I"@, "lanplus"@, "-H"@, host, "-U"@, username, "-E"@] + command
}

/// The program to run.
pub fn program() -> (r: &'static str)
    ensures
        r@ == "ipmitool"@,
{
    "ipmitool"
}

/// The environment variable that hands the password over, and its value.
pub fn environment(machine: &Machine) -> (r: (String, String))
    ensures
        r.0@ == "IPMI_PASSWORD"@,
        r.1 == machine.password,
{
    ("IPMI_PASSWORD".to_owned(), machine.password.clone())
}

/// The arguments for one `ipmitool` subcommand. `-E` makes it read the password
/// from the environment, see [`environment`].
pub fn ipmitool_args(machine: &Machine, command: Vec<String>) -> (r: Vec<String>)
    ensures
        text::strings(r@) == arguments(machine@.host, machine@.username, text::strings(command@)),
{
    let mut args: Vec<String> = Vec::new();
    args.push("-I".to_owned());
    args.push("lanplus".to_owned());
    args.push("-H".to_owned());
    args.push(machine.host.clone());
    args.push("-U".to_owned());
    args.push(machine.username.clone());
    args.push("-E".to_owned());
    let ghost front = args@;
    assert(text::strings(front) == seq![
        "-I"@,
        "lanplus"@,
        "-H"@,
        machine@.host,
        "-U"@,
        machine@.username,
        "-E"@,
    ]);
    for i in 0..command.len()
        invariant
            front.len() == 7,
            args@.len() == 7 + i,
            forall|j: int| 0 <= j < 7 ==> args@[j] == front[j],
            forall|j: int| 0 <= j < i ==> args@[7 + j] == command@[j],
    {
        args.push(command[i].clone());
    }
    assert(args@ == front + command@);
    assert(text::strings(args@) == text::strings(front) + text::strings(command@));
    args
}

/// The process arguments are the same whatever the password is.
pub proof fn arguments_do_not_hold_the_password(
    a: MachineView,
    b: MachineView,
    command: Seq<Seq<char>>,
)
    requires
        (MachineView { password: b.password, ..a }) == b,
    ensures
        arguments(a.host, a.username, command) == arguments(b.host, b.username, command),
{
}

/// Why a run failed: the first line that it wrote to its standard error.
pub open spec fn complaint(stderr: Seq<char>) -> Seq<char> {
    let ls = text::lines(text::trim(stderr));
    if ls.len() > 0 {
        ls[0]
    } else {
        "ipmitool error"@
    }
}

fn first_complaint(stderr: &str) -> (r: String)
    ensures
        r@ == complaint(stderr@),
{
    let ls = text::lines_of(&text::trimmed(&text::chars_of(stderr)));
    assert(text::texts(ls@).len() == ls@.len());
    if ls.len() > 0 {
        assert(text::texts(ls@)[0] == ls@[0]@);
        text::string_of(&ls[0])
    } else {
        "ipmitool error".to_owned()
    }
}

/// What a run comes to, by its exit status and its two outputs.
pub open spec fn comes_to(success: bool, stdout: Seq<char>, stderr: Seq<char>) -> Result<
    Seq<char>,
    Seq<char>,
> {
    if success {
        Ok(stdout)
    } else {
        Err(complaint(stderr))
    }
}

/// What one run amounts to, with its output streams as texts.
pub fn interpret(success: bool, stdout: String, stderr: &str) -> (r: Result<String, String>)
    ensures
        success ==> r == Ok::<String, String>(stdout),
        !success ==> r is Err && r->Err_0@ == complaint(stderr@),
        reply_text(r) == comes_to(success, stdout@, stderr@),
{
    if success {
        Ok(stdout)
    } else {
        Err(first_complaint(stderr))
    }
}

/// What one run of `ipmitool` amounts to: its standard output, or a short error
/// text. `outcome` is an error where the program could not be run at all.
pub fn ipmitool(outcome: Result<CommandOutput, String>) -> (r: Result<String, String>)
    ensures
        match outcome {
            Err(e) => r is Err && r->Err_0@ == "failed to run ipmitool: "@ + e@,
            Ok(o) => if o.success {
                r is Ok && r->Ok_0@ == lossy_text(o.stdout@)
            } else {
                r is Err && r->Err_0@ == complaint(lossy_text(o.stderr@))
            },
        },
        outcome matches Ok(o) ==> reply_text(r) == comes_to(
            o.success,
            lossy_text(o.stdout@),
            lossy_text(o.stderr@),
        ),
{
    match outcome {
        Err(e) => Err(text::join2("failed to run ipmitool: ", e.as_str())),
        Ok(o) => {
            let stdout = from_utf8_lossy(&o.stdout);
            let stderr = from_utf8_lossy(&o.stderr);
            interpret(o.success, stdout, stderr.as_str())
        },
    }
}

// --- subcommands ---------------------------------------------------------------

/// LAN channel to read the BMC MAC from. 1 is the Supermicro dedicated IPMI LAN.
pub open spec fn lan_channel() -> Seq<char> {
    "1"@
}

fn words1(a: &str) -> (r: Vec<String>)
    ensures
        text::strings(r@) == seq![a@],
{
    let mut v: Vec<String> = Vec::new();
    v.push(a.to_owned());
    assert(text::strings(v@) == seq![a@]);
    v
}

fn words2(a: &str, b: &str) -> (r: Vec<String>)
    ensures
        text::strings(r@) == seq![a@, b@],
{
    let mut v = words1(a);
    v.push(b.to_owned());
    assert(text::strings(v@) == seq![a@, b@]) by {
        assert(text::strings(v@.drop_last()) == seq![a@]);
        assert(text::strings(v@)[0] == text::strings(v@.drop_last())[0]);
    }
    v
}

fn words3(a: &str, b: &str, c: &str) -> (r: Vec<String>)
    ensures
        text::strings(r@) == seq![a@, b@, c@],
{
    let mut v = words2(a, b);
    let ghost front = v@;
    v.push(c.to_owned());
    assert(text::strings(v@) == text::strings(front).push(c@));
    v
}

/// What `ipmitool` can be asked for without acting on the host.
pub enum Question {
    Status,
    Boot,
    Inventory,
    Network,
    Sensors,
    Controller,
    Accounts,
    Log,
    EndConsole,
    Console,
}

/// The subcommand that asks for it.
pub open spec fn asking(q: Question) -> Seq<Seq<char>> {
    match q {
        Question::Status => seq!["chassis"@, "status"@],
        Question::Boot => seq!["chassis"@, "bootparam"@, "get"@, "5"@],
        Question::Inventory => seq!["fru"@],
        Question::Network => seq!["lan"@, "print"@, lan_channel()],
        Question::Sensors => seq!["sdr"@, "list"@],
        Question::Controller => seq!["mc"@, "info"@],
        Question::Accounts => seq!["user"@, "list"@, lan_channel()],
        Question::Log => seq!["sel"@, "elist"@],
        Question::EndConsole => seq!["sol"@, "deactivate"@],
        Question::Console => seq!["sol"@, "activate"@],
    }
}

pub fn chassis_status() -> (r: Vec<String>)
    ensures
        text::strings(r@) == seq!["chassis"@, "status"@],
        text::strings(r@) == asking(Question::Status),
{
    words2("chassis", "status")
}

pub fn boot_parameter() -> (r: Vec<String>)
    ensures
        text::strings(r@) == seq!["chassis"@, "bootparam"@, "get"@, "5"@],
        text::strings(r@) == asking(Question::Boot),
{
    let mut v = words3("chassis", "bootparam", "get");
    let ghost front = v@;
    v.push("5".to_owned());
    assert(text::strings(v@) == text::strings(front).push("5"@));
    v
}

pub fn fru() -> (r: Vec<String>)
    ensures
        text::strings(r@) == seq!["fru"@],
        text::strings(r@) == asking(Question::Inventory),
{
    words1("fru")
}

pub fn lan_print() -> (r: Vec<String>)
    ensures
        text::strings(r@) == seq!["lan"@, "print"@, lan_channel()],
        text::strings(r@) == asking(Question::Network),
{
    words3("lan", "print", "1")
}

pub fn sdr_list() -> (r: Vec<String>)
    ensures
        text::strings(r@) == seq!["sdr"@, "list"@],
        text::strings(r@) == asking(Question::Sensors),
{
    words2("sdr", "list")
}

pub fn mc_info() -> (r: Vec<String>)
    ensures
        text::strings(r@) == seq!["mc"@, "info"@],
        text::strings(r@) == asking(Question::Controller),
{
    words2("mc", "info")
}

pub fn user_list() -> (r: Vec<String>)
    ensures
        text::strings(r@) == seq!["user"@, "list"@, lan_channel()],
        text::strings(r@) == asking(Question::Accounts),
{
    words3("user", "list", "1")
}

pub fn sel_elist() -> (r: Vec<String>)
    ensures
        text::strings(r@) == seq!["sel"@, "elist"@],
        text::strings(r@) == asking(Question::Log),
{
    words2("sel", "elist")
}

/// Deactivate any stale Serial-over-LAN session (best-effort pre-flight before
/// `sol activate`, which is exclusive: one session per BMC).
pub fn sol_deactivate() -> (r: Vec<String>)
    ensures
        text::strings(r@) == seq!["sol"@, "deactivate"@],
        text::strings(r@) == asking(Question::EndConsole),
{
    words2("sol", "deactivate")
}

/// Open the Serial-over-LAN session, which takes the terminal over.
pub fn sol_activate() -> (r: Vec<String>)
    ensures
        text::strings(r@) == seq!["sol"@, "activate"@],
        text::strings(r@) == asking(Question::Console),
{
    words2("sol", "activate")
}

/// The subcommand for a power action.
pub open spec fn power_command(action: PowerAction) -> Seq<Seq<char>> {
    seq!["chassis"@, "power"@, action.verb()]
}

/// Issue a power action via `ipmitool chassis power <verb>`.
pub fn power(action: PowerAction) -> (r: Vec<String>)
    ensures
        text::strings(r@) == seq!["chassis"@, "power"@, action.verb()],
        text::strings(r@) == power_command(action),
{
    words3("chassis", "power", action.ipmi_verb())
}

/// The subcommand for a boot action.
pub open spec fn boot_command(action: BootAction, persistent: bool) -> Seq<Seq<char>> {
    if persistent && !(action is Clear) {
        seq!["chassis"@, "bootdev"@, action.device(), "options=persistent"@]
    } else {
        seq!["chassis"@, "bootdev"@, action.device()]
    }
}

/// Set a boot override via `ipmitool chassis bootdev <dev>`. `persistent` adds
/// `options=persistent` so it sticks across reboots (not meaningful when
/// clearing); otherwise it applies to the next boot only.
pub fn set_boot(action: BootAction, persistent: bool) -> (r: Vec<String>)
    ensures
        text::strings(r@) == if persistent && !(action is Clear) {
            seq!["chassis"@, "bootdev"@, action.device(), "options=persistent"@]
        } else {
            seq!["chassis"@, "bootdev"@, action.device()]
        },
        text::strings(r@) == boot_command(action, persistent),
{
    let mut v = words3("chassis", "bootdev", action.ipmi_bootdev());
    if persistent && !matches!(action, BootAction::Clear) {
        let ghost front = v@;
        v.push("options=persistent".to_owned());
        assert(text::strings(v@) == text::strings(front).push("options=persistent"@));
    }
    v
}

/// What a run amounts to of which only its success matters.
pub fn done(reply: Result<String, String>) -> (r: Result<(), String>)
    ensures
        match reply {
            Ok(_) => r == Ok::<(), String>(()),
            Err(e) => r == Err::<(), String>(e),
        },
{
    match reply {
        Ok(_) => Ok(()),
        Err(e) => Err(e),
    }
}

// --- the power probe -----------------------------------------------------------

/// How far a power probe has come: the subcommand it waits for.
#[derive(Debug, Clone, Copy, PartialEq, Eq, Structural)]
pub enum ProbeStage {
    Status,
    Boot,
    Fru,
    Lan,
    Done,
}

/// Power/boot-state probe. A single `chassis status` doubles as the reachability
/// check and yields power, fault flags and the identify-LED state; the boot
/// override is one more cheap call. Static fields (serial via `fru`, BMC MAC via
/// `lan print`) are fetched only when `fetch_static` is set: the caller asks once.
///
/// The caller runs [`PowerProbe::command`], hands the reply to
/// [`PowerProbe::feed`], and goes on until there is no more command.
pub struct PowerProbe {
    pub stage: ProbeStage,
    pub fetch_static: bool,
    pub poll: PowerPoll,
}

pub struct PowerProbeView {
    pub stage: ProbeStage,
    pub fetch_static: bool,
    pub poll: PowerPollView,
}

impl View for PowerProbe {
    type V = PowerProbeView;

    open spec fn view(&self) -> PowerProbeView {
        PowerProbeView { stage: self.stage, fetch_static: self.fetch_static, poll: self.poll@ }
    }
}

/// The texts of a reply.
pub open spec fn reply_text(r: Result<String, String>) -> Result<Seq<char>, Seq<char>> {
    match r {
        Ok(s) => Ok(s@),
        Err(e) => Err(e@),
    }
}

impl PowerProbeView {
    pub open spec fn start(fetch_static: bool) -> Self {
        PowerProbeView { stage: ProbeStage::Status, fetch_static, poll: super::reached() }
    }

    pub open spec fn command(self) -> Option<Seq<Seq<char>>> {
        match self.stage {
            ProbeStage::Status => Some(seq!["chassis"@, "status"@]),
            ProbeStage::Boot => Some(seq!["chassis"@, "bootparam"@, "get"@, "5"@]),
            ProbeStage::Fru => Some(seq!["fru"@]),
            ProbeStage::Lan => Some(seq!["lan"@, "print"@, lan_channel()]),
            ProbeStage::Done => None,
        }
    }

    pub open spec fn after(self, reply: Result<Seq<char>, Seq<char>>) -> Self {
        match self.stage {
            ProbeStage::Status => match reply {
                Err(e) => PowerProbeView {
                    stage: ProbeStage::Done,
                    poll: super::not_reached(e),
                    ..self
                },
                Ok(out) => PowerProbeView {
                    stage: ProbeStage::Boot,
                    poll: PowerPollView {
                        power: power_in(out),
                        fault: fault_in(out),
                        identify: identify_in(out),
                        ..self.poll
                    },
                    ..self
                },
            },
            ProbeStage::Boot => PowerProbeView {
                stage: if self.fetch_static {
                    ProbeStage::Fru
                } else {
                    ProbeStage::Done
                },
                poll: match reply {
                    Ok(out) => PowerPollView { boot: boot_in(out), ..self.poll },
                    Err(_) => self.poll,
                },
                ..self
            },
            ProbeStage::Fru => PowerProbeView {
                stage: ProbeStage::Lan,
                poll: match reply {
                    Ok(out) => PowerPollView { serial: serial_in(out), ..self.poll },
                    Err(_) => self.poll,
                },
                ..self
            },
            ProbeStage::Lan => PowerProbeView {
                stage: ProbeStage::Done,
                poll: match reply {
                    Ok(out) => PowerPollView { mac: field(out, "MAC Address"@), ..self.poll },
                    Err(_) => self.poll,
                },
                ..self
            },
            ProbeStage::Done => self,
        }
    }
}

impl PowerProbe {
    pub fn new(fetch_static: bool) -> (r: Self)
        ensures
            r@ == PowerProbeView::start(fetch_static),
    {
        PowerProbe { stage: ProbeStage::Status, fetch_static, poll: PowerPoll::reachable() }
    }

    /// The subcommand to run next, `None` once the probe is complete.
    pub fn command(&self) -> (r: Option<Vec<String>>)
        ensures
            match r {
                Some(c) => self@.command() == Some(text::strings(c@)),
                None => self@.command() is None,
            },
    {
        match self.stage {
            ProbeStage::Status => Some(chassis_status()),
            ProbeStage::Boot => Some(boot_parameter()),
            ProbeStage::Fru => Some(fru()),
            ProbeStage::Lan => Some(lan_print()),
            ProbeStage::Done => None,
        }
    }

    /// Take in the reply to the current subcommand. Only the first one decides on
    /// reachability; the others are best-effort.
    pub fn feed(&mut self, reply: Result<String, String>)
        ensures
            final(self)@ == old(self)@.after(reply_text(reply)),
    {
        match self.stage {
            ProbeStage::Status => match reply {
                Err(e) => {
                    self.poll = PowerPoll::unreachable(e);
                    self.stage = ProbeStage::Done;
                },
                Ok(out) => {
                    self.poll.power = parse_power(out.as_str());
                    self.poll.fault = parse_fault(out.as_str());
                    self.poll.identify = parse_identify(out.as_str());
                    self.stage = ProbeStage::Boot;
                },
            },
            ProbeStage::Boot => {
                if let Ok(out) = reply {
                    self.poll.boot = parse_boot(out.as_str());
                }
                self.stage = if self.fetch_static {
                    ProbeStage::Fru
                } else {
                    ProbeStage::Done
                };
            },
            ProbeStage::Fru => {
                if let Ok(out) = reply {
                    self.poll.serial = parse_serial(out.as_str());
                }
                self.stage = ProbeStage::Lan;
            },
            ProbeStage::Lan => {
                if let Ok(out) = reply {
                    self.poll.mac = parse_field(out.as_str(), "MAC Address");
                }
                self.stage = ProbeStage::Done;
            },
            ProbeStage::Done => {},
        }
    }
}

/// A probe run to its end: an unanswered `chassis status` alone makes the poll
/// unreachable, and each other reply fills in its own fields or none. Without
/// `fetch_static` the serial and the MAC address are never asked for.
pub proof fn power_probe_runs_to_its_end(
    fetch_static: bool,
    status: Result<Seq<char>, Seq<char>>,
    boot: Result<Seq<char>, Seq<char>>,
    fru_reply: Result<Seq<char>, Seq<char>>,
    lan: Result<Seq<char>, Seq<char>>,
)
    ensures
        ({
            let s1 = PowerProbeView::start(fetch_static).after(status);
            let s2 = s1.after(boot);
            let s3 = s2.after(fru_reply);
            let s4 = s3.after(lan);
            &&& s4.stage is Done
            &&& status is Err ==> s1.stage is Done && s4.poll == super::not_reached(
                status->Err_0,
            )
            &&& status is Ok ==> {
                &&& !fetch_static ==> s2.stage is Done
                &&& s4.poll == PowerPollView {
                    reachable: true,
                    power: power_in(status->Ok_0),
                    fault: fault_in(status->Ok_0),
                    identify: identify_in(status->Ok_0),
                    boot: if boot is Ok {
                        boot_in(boot->Ok_0)
                    } else {
                        BootOverride::Unset
                    },
                    serial: if fetch_static && fru_reply is Ok {
                        serial_in(fru_reply->Ok_0)
                    } else {
                        None
                    },
                    mac: if fetch_static && lan is Ok {
                        field(lan->Ok_0, "MAC Address"@)
                    } else {
                        None
                    },
                    latency: 0,
                    error: None,
                }
            }
        }),
{
}

/// The health that a reply to `sdr list` tells, if there is one.
pub open spec fn health_told(reply: Result<Seq<char>, Seq<char>>) -> Option<Health> {
    match reply {
        Ok(out) => Some(health_in(out)),
        Err(_) => None,
    }
}

/// Sensor health from the reply to `sdr list` (the slow call). `None` if it
/// couldn't be read.
pub fn poll_health(reply: Result<String, String>) -> (r: Option<Health>)
    ensures
        r == match reply {
            Ok(out) => Some(health_in(out@)),
            Err(_) => None,
        },
        r == health_told(reply_text(reply)),
{
    match reply {
        Ok(out) => Some(parse_health(out.as_str())),
        Err(_) => None,
    }
}

// --- overview, users, event log ------------------------------------------------

/// The first of the two that is there.
pub open spec fn or_else(a: Option<Seq<char>>, b: Option<Seq<char>>) -> Option<Seq<char>> {
    if a is Some {
        a
    } else {
        b
    }
}

/// The facts that the four outputs tell, in the order in which they are shown.
pub open spec fn overview_of(
    mc: Seq<char>,
    fru: Seq<char>,
    lan: Seq<char>,
    chassis: Seq<char>,
) -> Seq<(Seq<char>, Seq<char>)> {
    super::fact("Power"@, Some(power_word(power_in(chassis)))) + super::fact(
        "Vendor"@,
        or_else(field(fru, "Product Manufacturer"@), field(mc, "Manufacturer Name"@)),
    ) + super::fact("Product"@, field(fru, "Product Name"@)) + super::fact(
        "Board"@,
        field(fru, "Board Product"@),
    ) + super::fact("Serial"@, serial_in(fru)) + super::fact(
        "Part Number"@,
        field(fru, "Product Part Number"@),
    ) + super::fact("BMC Firmware"@, field(mc, "Firmware Revision"@)) + super::fact(
        "IPMI Version"@,
        field(mc, "IPMI Version"@),
    ) + super::fact("BMC MAC"@, field(lan, "MAC Address"@)) + super::fact(
        "BMC IP"@,
        field(lan, "IP Address"@),
    ) + super::fact("BMC Subnet"@, field(lan, "Subnet Mask"@)) + super::fact(
        "BMC Gateway"@,
        field(lan, "Default Gateway IP"@),
    ) + super::fact("VLAN"@, field(lan, "802.1q VLAN ID"@))
}

/// The output of a best-effort call: empty where it failed.
pub open spec fn or_empty(r: Result<Seq<char>, Seq<char>>) -> Seq<char> {
    match r {
        Ok(s) => s,
        Err(_) => Seq::empty(),
    }
}

/// The overview that the four replies come to.
pub open spec fn overview_told(
    mc: Result<Seq<char>, Seq<char>>,
    fru: Result<Seq<char>, Seq<char>>,
    lan: Result<Seq<char>, Seq<char>>,
    chassis: Result<Seq<char>, Seq<char>>,
) -> Result<Seq<(Seq<char>, Seq<char>)>, Seq<char>> {
    match mc {
        Ok(out) => Ok(overview_of(out, or_empty(fru), or_empty(lan), or_empty(chassis))),
        Err(e) => Err(e),
    }
}

fn output_or_empty(r: Result<String, String>) -> (s: String)
    ensures
        s@ == or_empty(reply_text(r)),
{
    match r {
        Ok(s) => s,
        Err(_) => String::new(),
    }
}

/// Gather Overview facts from `mc info`, `fru`, `lan print` and `chassis status`.
/// `mc info` is the reachability gate: without it the BMC is unreachable, and
/// its error is the result. The other sources are best-effort: a failing call
/// just omits its fields.
pub fn overview(
    mc: Result<String, String>,
    fru: Result<String, String>,
    lan: Result<String, String>,
    chassis: Result<String, String>,
) -> (r: Result<Overview, String>)
    ensures
        match mc {
            Err(e) => r == Err::<Overview, String>(e),
            Ok(out) => r is Ok && text::string_pairs(r->Ok_0@) == overview_of(
                out@,
                or_empty(reply_text(fru)),
                or_empty(reply_text(lan)),
                or_empty(reply_text(chassis)),
            ),
        },
        match overview_told(
            reply_text(mc),
            reply_text(fru),
            reply_text(lan),
            reply_text(chassis),
        ) {
            Ok(facts) => r matches Ok(v) && text::string_pairs(v@) == facts,
            Err(error) => r matches Err(e) && e@ == error,
        },
{
    let mc = match mc {
        Ok(out) => out,
        Err(e) => {
            return Err(e);
        },
    };
    let fru = output_or_empty(fru);
    let lan = output_or_empty(lan);
    let chassis = output_or_empty(chassis);
    let mc = mc.as_str();
    let fru = fru.as_str();
    let lan = lan.as_str();

    let mut ov: Overview = Vec::new();
    assert(text::string_pairs(ov@) + super::fact("Power"@, Some(power_word(power_in(chassis@)))) == super::fact(
        "Power"@,
        Some(power_word(power_in(chassis@))),
    ));
    super::push_fact(&mut ov, "Power", Some(power_text(parse_power(chassis.as_str()))));
    let vendor = match parse_field(fru, "Product Manufacturer") {
        Some(v) => Some(v),
        None => parse_field(mc, "Manufacturer Name"),
    };
    super::push_fact(&mut ov, "Vendor", vendor);
    super::push_fact(&mut ov, "Product", parse_field(fru, "Product Name"));
    super::push_fact(&mut ov, "Board", parse_field(fru, "Board Product"));
    super::push_fact(&mut ov, "Serial", parse_serial(fru));
    super::push_fact(&mut ov, "Part Number", parse_field(fru, "Product Part Number"));
    super::push_fact(&mut ov, "BMC Firmware", parse_field(mc, "Firmware Revision"));
    super::push_fact(&mut ov, "IPMI Version", parse_field(mc, "IPMI Version"));
    super::push_fact(&mut ov, "BMC MAC", parse_field(lan, "MAC Address"));
    super::push_fact(&mut ov, "BMC IP", parse_field(lan, "IP Address"));
    super::push_fact(&mut ov, "BMC Subnet", parse_field(lan, "Subnet Mask"));
    super::push_fact(&mut ov, "BMC Gateway", parse_field(lan, "Default Gateway IP"));
    super::push_fact(&mut ov, "VLAN", parse_field(lan, "802.1q VLAN ID"));
    Ok(ov)
}

/// List BMC user accounts from the reply to `user list <channel>`.
pub fn users(reply: Result<String, String>) -> (r: Result<Vec<BmcUser>, String>)
    ensures
        match reply {
            Err(e) => r == Err::<Vec<BmcUser>, String>(e),
            Ok(out) => r is Ok && super::user_views(r->Ok_0@) == users_in(text::lines(out@)),
        },
{
    match reply {
        Ok(out) => Ok(parse_users(out.as_str())),
        Err(e) => Err(e),
    }
}

/// The event log that `sel elist` output tells, newest first.
pub open spec fn log_in(out: Seq<char>) -> Seq<SelEntryView> {
    entries_in(text::lines(out)).reverse()
}

/// The System Event Log from the reply to `sel elist`, newest first. The reply
/// is oldest-first (record order); the newest goes to the top.
pub fn sel_list(reply: Result<String, String>) -> (r: Result<Vec<SelEntry>, String>)
    ensures
        match reply {
            Err(e) => r == Err::<Vec<SelEntry>, String>(e),
            Ok(out) => r is Ok && super::entry_views(r->Ok_0@) == entries_in(
                text::lines(out@),
            ).reverse(),
        },
        reply matches Ok(out) ==> r matches Ok(v) && super::entry_views(v@) == log_in(out@),
{
    match reply {
        Ok(out) => Ok(super::reversed(parse_sel(out.as_str()))),
        Err(e) => Err(e),
    }
}

} // verus!
