//! What the outputs of `ipmitool` mean, told of outputs put together from their
//! parts.

use vstd::prelude::*;

use super::ipmi::{self, PowerProbeView, ProbeStage, Question};
use super::{BmcUserView, BootOverride, Health, PowerState};
use crate::text;
use crate::text_laws;

verus! {

// --- `Key : Value` fields ------------------------------------------------------

/// A line says of its key what stands behind the first colon, trimmed: whatever the
/// white space round the key and the case of its letters. Of any other key it says
/// nothing, nor does it if nothing stands behind the colon.
pub proof fn a_line_says_its_value(
    front: Seq<char>,
    name: Seq<char>,
    back: Seq<char>,
    value: Seq<char>,
    key: Seq<char>,
)
    requires
        text_laws::blank(front),
        text_laws::blank(back),
        name.len() > 0,
        !text::is_white(name[0]),
        !text::is_white(name.last()),
        name[0] != '-' && name[0] != '*' && name[0] != '•',
        text_laws::lacks(front + name + back, ':'),
    ensures
        ({
            let line = front + name + back + seq![':'] + value;
            let said = ipmi::line_field(line, key);
            &&& text::same_letters(name, key) && text::trim(value).len() > 0 ==> said == Some(
                text::trim(value),
            )
            &&& !text::same_letters(name, key) || text::trim(value).len() == 0 ==> said is None
        }),
{
    let k = front + name + back;
    text_laws::a_text_is_halved_at_the_first_separator(k, ':', value);
    text_laws::trimming_takes_off_both_sides(front, name, back);
    text::lemma_find(name, ipmi::not_bullet(), 0);
    assert(name.skip(0) == name);
    let none = Seq::<char>::empty();
    text_laws::trimming_takes_off_both_sides(none, name, none);
    assert(none + name + none == name);
}

/// The bullets in front of a key do not matter: dashes, stars and dots.
pub proof fn bullets_do_not_matter(
    bullets: Seq<char>,
    gap: Seq<char>,
    name: Seq<char>,
    value: Seq<char>,
    key: Seq<char>,
)
    requires
        bullets.len() > 0,
        forall|i: int|
            0 <= i < bullets.len() ==> #[trigger] bullets[i] == '-' || bullets[i] == '*'
                || bullets[i] == '•',
        text_laws::blank(gap),
        gap.len() > 0,
        name.len() > 0,
        !text::is_white(name[0]),
        !text::is_white(name.last()),
        text_laws::lacks(gap + name, ':'),
    ensures
        ({
            let line = bullets + gap + name + seq![':'] + value;
            let said = ipmi::line_field(line, key);
            &&& text::same_letters(name, key) && text::trim(value).len() > 0 ==> said == Some(
                text::trim(value),
            )
            &&& !text::same_letters(name, key) || text::trim(value).len() == 0 ==> said is None
        }),
{
    let k = bullets + gap + name;
    let none = Seq::<char>::empty();
    assert forall|i: int| 0 <= i < k.len() implies #[trigger] k[i] != ':' by {
        if i >= bullets.len() {
            assert(k[i] == (gap + name)[i - bullets.len()]);
        } else {
            assert(k[i] == bullets[i]);
        }
    }
    text_laws::a_text_is_halved_at_the_first_separator(k, ':', value);
    assert(k[0] == bullets[0]);
    assert(k.last() == name.last());
    text_laws::trimming_takes_off_both_sides(none, k, none);
    assert(none + k + none == k);
    let n = bullets.len() as int;
    assert forall|j: int| 0 <= j < n implies !(ipmi::not_bullet())(#[trigger] k[j]) by {
        assert(k[j] == bullets[j]);
    }
    assert(k[n] == gap[0]);
    text::lemma_find(k, ipmi::not_bullet(), n);
    assert(k.skip(n) == gap + name);
    text_laws::trimming_takes_off_both_sides(gap, name, none);
    assert(gap + name + none == gap + name);
}

/// A line without a colon says nothing.
pub proof fn a_line_without_a_colon_says_nothing(line: Seq<char>, key: Seq<char>)
    requires
        text_laws::lacks(line, ':'),
    ensures
        ipmi::line_field(line, key) is None,
{
    text_laws::a_text_is_halved_at_the_first_separator(line, ':', Seq::empty());
}

/// An output says of a key what the first of its lines says that says something.
pub proof fn the_first_line_that_says_something_counts(out: Seq<char>, key: Seq<char>, i: int)
    requires
        0 <= i < text::lines(out).len(),
        ipmi::line_field(text::lines(out)[i], key) is Some,
        forall|j: int| 0 <= j < i ==> ipmi::line_field(#[trigger] text::lines(out)[j], key) is None,
    ensures
        ipmi::field(out, key) == ipmi::line_field(text::lines(out)[i], key),
{
    lemma_first(text::lines(out), key, i);
}

/// An output none of whose lines says anything of a key says nothing of it.
pub proof fn an_output_of_silent_lines_says_nothing(out: Seq<char>, key: Seq<char>)
    requires
        forall|j: int|
            0 <= j < text::lines(out).len() ==> ipmi::line_field(
                #[trigger] text::lines(out)[j],
                key,
            ) is None,
    ensures
        ipmi::field(out, key) is None,
{
    lemma_silent(text::lines(out), key);
}

proof fn lemma_first(lines: Seq<Seq<char>>, key: Seq<char>, i: int)
    requires
        0 <= i < lines.len(),
        ipmi::line_field(lines[i], key) is Some,
        forall|j: int| 0 <= j < i ==> ipmi::line_field(#[trigger] lines[j], key) is None,
    ensures
        ipmi::first_field(lines, key) == ipmi::line_field(lines[i], key),
    decreases lines.len(),
{
    if i > 0 {
        assert(ipmi::line_field(lines[0], key) is None);
        let rest = lines.drop_first();
        assert forall|j: int| 0 <= j < i - 1 implies ipmi::line_field(
            #[trigger] rest[j],
            key,
        ) is None by {
            assert(rest[j] == lines[j + 1]);
        }
        lemma_first(rest, key, i - 1);
    }
}

proof fn lemma_silent(lines: Seq<Seq<char>>, key: Seq<char>)
    requires
        forall|j: int| 0 <= j < lines.len() ==> ipmi::line_field(#[trigger] lines[j], key) is None,
    ensures
        ipmi::first_field(lines, key) is None,
    decreases lines.len(),
{
    if lines.len() > 0 {
        assert(ipmi::line_field(lines[0], key) is None);
        let rest = lines.drop_first();
        assert forall|j: int| 0 <= j < rest.len() implies ipmi::line_field(
            #[trigger] rest[j],
            key,
        ) is None by {
            assert(rest[j] == lines[j + 1]);
        }
        lemma_silent(rest, key);
    }
}

// --- chassis status ------------------------------------------------------------

/// Whether `v` is `word` in any case, with or without white space round it.
pub open spec fn reads(v: Option<Seq<char>>, word: Seq<char>) -> bool {
    v is Some && text::same_letters(text::trim(v->0), word)
}

proof fn lemma_on_off()
    ensures
        text::lower("on"@) == "on"@,
        text::lower("off"@) == "off"@,
        "on"@ != "off"@,
{
    reveal_strlit("on");
    reveal_strlit("off");
    assert(text::lower("on"@) =~= "on"@);
    assert(text::lower("off"@) =~= "off"@);
    assert("on"@.len() == 2 && "off"@.len() == 3);
}

/// The host is on if its system power says on, off if it says off, and any other word
/// tells nothing.
pub proof fn system_power_tells_the_power(out: Seq<char>)
    ensures
        ({
            let said = ipmi::field(out, "System Power"@);
            &&& reads(said, "on"@) ==> ipmi::power_in(out) == PowerState::On
            &&& reads(said, "off"@) ==> ipmi::power_in(out) == PowerState::Off
            &&& said is Some && !reads(said, "on"@) && !reads(said, "off"@) ==> ipmi::power_in(out)
                == PowerState::Unknown
        }),
{
    lemma_on_off();
}

/// Without that field the phrase of `chassis power status` counts, in any case; an
/// output with neither tells nothing.
pub proof fn the_phrase_tells_the_power(a: Seq<char>, phrase: Seq<char>, b: Seq<char>)
    requires
        ipmi::field(a + phrase + b, "System Power"@) is None,
    ensures
        text::same_letters(phrase, "is on"@) ==> ipmi::power_in(a + phrase + b) == PowerState::On,
        text::same_letters(phrase, "is off"@) && !text::has(
            text::lower(a + phrase + b),
            "is on"@,
        ) ==> ipmi::power_in(a + phrase + b) == PowerState::Off,
        !text::has(text::lower(a + phrase + b), "is on"@) && !text::has(
            text::lower(a + phrase + b),
            "is off"@,
        ) ==> ipmi::power_in(a + phrase + b) == PowerState::Unknown,
{
    reveal_strlit("is on");
    reveal_strlit("is off");
    assert(text::lower("is on"@) =~= "is on"@);
    assert(text::lower("is off"@) =~= "is off"@);
    let l = text::lower(a + phrase + b);
    assert(l =~= text::lower(a) + text::lower(phrase) + text::lower(b));
    text_laws::a_word_stands_in_what_is_made_with_it(l, text::lower(phrase));
}

/// The five flags that are faults of the chassis.
pub open spec fn fault_flags() -> Seq<Seq<char>> {
    seq![
        "Power Overload"@,
        "Main Power Fault"@,
        "Power Control Fault"@,
        "Drive Fault"@,
        "Cooling/Fan Fault"@,
    ]
}

/// There is a fault exactly if one of the five flags says true.
pub proof fn any_of_the_flags_is_a_fault(out: Seq<char>)
    ensures
        ipmi::fault_in(out) <==> exists|i: int|
            0 <= i < 5 && reads(ipmi::field(out, #[trigger] fault_flags()[i]), "true"@),
{
    let f = fault_flags();
    if ipmi::fault_in(out) {
        if ipmi::flag(out, f[0]) {
            assert(reads(ipmi::field(out, f[0]), "true"@));
        } else if ipmi::flag(out, f[1]) {
            assert(reads(ipmi::field(out, f[1]), "true"@));
        } else if ipmi::flag(out, f[2]) {
            assert(reads(ipmi::field(out, f[2]), "true"@));
        } else if ipmi::flag(out, f[3]) {
            assert(reads(ipmi::field(out, f[3]), "true"@));
        } else {
            assert(reads(ipmi::field(out, f[4]), "true"@));
        }
    }
}

/// The identify LED is lit exactly if its state is told and is not off.
pub proof fn an_identify_state_that_is_not_off_is_lit(out: Seq<char>)
    ensures
        ipmi::identify_in(out) <==> ipmi::field(out, "Chassis Identify State"@) is Some && !reads(
            ipmi::field(out, "Chassis Identify State"@),
            "off"@,
        ),
{
}

// --- boot override -------------------------------------------------------------

/// The override that a valid set of boot flags names, by a word in its selector in
/// any case. Where several stand in it, the first of this list counts: no override,
/// pxe, hard drive, bios, cd or dvd. A selector without any is some other override,
/// and no selector is none.
pub proof fn the_selector_names_the_override(out: Seq<char>)
    requires
        !text::has(text::lower(out), "boot flag invalid"@),
    ensures
        ({
            let sel = ipmi::field(out, "Boot Device Selector"@);
            let s = text::lower(sel->0);
            let none = text::has(s, "no override"@);
            let pxe = text::has(s, "pxe"@);
            let disk = text::has(s, "hard-drive"@) || text::has(s, "hard drive"@);
            let bios = text::has(s, "bios"@);
            let cd = text::has(s, "cd"@) || text::has(s, "dvd"@);
            let boot = ipmi::boot_in(out);
            &&& sel is None ==> boot == BootOverride::Unset
            &&& sel is Some ==> {
                &&& none ==> boot == BootOverride::Unset
                &&& !none && pxe ==> boot == BootOverride::Pxe
                &&& !none && !pxe && disk ==> boot == BootOverride::Disk
                &&& !none && !pxe && !disk && bios ==> boot == BootOverride::Bios
                &&& !none && !pxe && !disk && !bios && cd ==> boot == BootOverride::Cd
                &&& !none && !pxe && !disk && !bios && !cd ==> boot == BootOverride::Other
            }
        }),
{
}

/// The serial is the product's; without one, the board's.
pub proof fn the_product_serial_comes_first(fru: Seq<char>)
    ensures
        ipmi::field(fru, "Product Serial"@) is Some ==> ipmi::serial_in(fru) == ipmi::field(
            fru,
            "Product Serial"@,
        ),
        ipmi::field(fru, "Product Serial"@) is None ==> ipmi::serial_in(fru) == ipmi::field(
            fru,
            "Board Serial"@,
        ),
{
}

// --- users ---------------------------------------------------------------------

/// Whether `w` is a truth value.
pub open spec fn is_truth(w: Seq<char>) -> bool {
    text::same_letters(w, "true"@) || text::same_letters(w, "false"@)
}

/// A line of the user list with a number, a name, three truth values and a
/// privilege is an account: with this number and name, enabled if the third truth
/// value is true, and with all the words of the privilege, one blank between each
/// two.
pub proof fn a_line_of_the_user_list_is_an_account(
    line: Seq<char>,
    id: Seq<char>,
    name: Seq<char>,
    callin: Seq<char>,
    link: Seq<char>,
    msg: Seq<char>,
    privilege: Seq<Seq<char>>,
)
    requires
        text::words(line) == seq![id, name, callin, link, msg] + privilege,
        text::is_number(id),
        !is_truth(name),
        is_truth(callin),
        is_truth(link),
        is_truth(msg),
        privilege.len() > 0,
    ensures
        ipmi::user_in(line) == Some(
            BmcUserView {
                id,
                name,
                privilege: text::joined(privilege, " "@),
                enabled: text::same_letters(msg, "true"@),
            },
        ),
{
    let t = text::words(line);
    assert(t.skip(5) =~= privilege);
    assert(t[0] == id && t[1] == name && t[2] == callin && t[3] == link && t[4] == msg);
}

/// Any other line is none: with fewer words, without a number in front, without a
/// name, or without the three truth values.
pub proof fn no_other_line_is_an_account(line: Seq<char>)
    requires
        ({
            let t = text::words(line);
            ||| t.len() < 6
            ||| !text::is_number(t[0])
            ||| is_truth(t[1])
            ||| !is_truth(t[2])
            ||| !is_truth(t[3])
            ||| !is_truth(t[4])
        }),
    ensures
        ipmi::user_in(line) is None,
{
}

/// The accounts of two lists of lines are those of the one and then those of the
/// other; a single line has the account that it is, or none.
pub proof fn accounts_come_line_by_line(a: Seq<Seq<char>>, b: Seq<Seq<char>>, line: Seq<char>)
    ensures
        ipmi::users_in(a + b) == ipmi::users_in(a) + ipmi::users_in(b),
        ipmi::user_in(line) is Some ==> ipmi::users_in(seq![line]) == seq![
            ipmi::user_in(line)->0,
        ],
        ipmi::user_in(line) is None ==> ipmi::users_in(seq![line]).len() == 0,
    decreases b.len(),
{
    reveal_with_fuel(ipmi::users_in, 2);
    assert(seq![line].drop_last() == Seq::<Seq<char>>::empty());
    if b.len() == 0 {
        assert(a + b == a);
        assert(ipmi::users_in(a) + ipmi::users_in(b) == ipmi::users_in(a));
    } else {
        accounts_come_line_by_line(a, b.drop_last(), line);
        assert((a + b).drop_last() == a + b.drop_last());
        assert((a + b).last() == b.last());
        assert(ipmi::users_in(a + b) =~= ipmi::users_in(a) + ipmi::users_in(b));
    }
}

// --- event log -----------------------------------------------------------------

/// The words that make an event severe and those that make it a warning.
pub open spec fn severe_words() -> Seq<Seq<char>> {
    seq!["non-recoverable"@, "critical"@, "failure"@, "fault"@, "uncorrectable"@]
}

pub open spec fn warning_words() -> Seq<Seq<char>> {
    seq!["warning"@, "degraded"@, "predictive"@]
}

/// Whether one of the words stands in `s`, in any case.
pub open spec fn tells_one_of(s: Seq<char>, words: Seq<Seq<char>>) -> bool {
    exists|i: int| 0 <= i < words.len() && text::has(text::lower(s), #[trigger] words[i])
}

/// The severity of an event that was not deasserted: critical with a severe word, a
/// warning with none but a word of warning, and else unknown.
pub proof fn the_words_of_an_event_tell_its_severity(event: Seq<char>, dir: Seq<char>)
    requires
        !text::same_letters(dir, "Deasserted"@),
    ensures
        tells_one_of(event, severe_words()) <==> ipmi::severity_of(event, dir) == Health::Critical,
        !tells_one_of(event, severe_words()) && tells_one_of(event, warning_words())
            <==> ipmi::severity_of(event, dir) == Health::Warning,
        !tells_one_of(event, severe_words()) && !tells_one_of(event, warning_words())
            <==> ipmi::severity_of(event, dir) == Health::Unknown,
{
    let t = text::lower(event);
    let s = severe_words();
    let w = warning_words();
    if text::has(t, s[0]) || text::has(t, s[1]) || text::has(t, s[2]) || text::has(t, s[3])
        || text::has(t, s[4]) {
        assert(tells_one_of(event, s));
    }
    if text::has(t, w[0]) || text::has(t, w[1]) || text::has(t, w[2]) {
        assert(tells_one_of(event, w));
    }
    if text::has(t, "non-critical"@) {
        reveal_strlit("non-critical");
        reveal_strlit("critical");
        text_laws::a_word_stands_in_what_is_made_with_it(t, "non-critical"@);
        let (a, b) = choose|a: Seq<char>, b: Seq<char>| t == #[trigger] (a + "non-critical"@ + b);
        let front = a + "non-critical"@.take(4);
        assert("non-critical"@ =~= "non-critical"@.take(4) + "critical"@);
        assert(t =~= front + "critical"@ + b);
        text_laws::a_word_stands_in_what_is_made_with_it(t, "critical"@);
    }
}

/// A record of six fields or more: number, date and time, sensor, event, direction.
/// The direction follows the event in brackets and small letters.
pub proof fn a_record_has_six_fields(line: Seq<char>)
    requires
        text::split(text::trim(line), '|').len() >= 6,
    ensures
        ({
            let p = text::split(text::trim(line), '|');
            let e = ipmi::entry_in(line)->0;
            let event = text::trim(p[4]);
            let dir = text::trim(p[5]);
            &&& ipmi::entry_in(line) is Some
            &&& e.id == text::trim(p[0])
            &&& e.when == text::trim(p[1]) + " "@ + text::trim(p[2])
            &&& e.sensor == text::trim(p[3])
            &&& dir.len() > 0 ==> e.text == event + " ("@ + text::lower(dir) + ")"@
            &&& dir.len() == 0 ==> e.text == event
            &&& e.severity == ipmi::severity_of(event, dir)
        }),
{
}

/// A record of five fields has one field for date and time; one of four has no
/// direction either. Fewer fields are no record.
pub proof fn a_record_may_have_fewer_fields(line: Seq<char>)
    ensures
        ({
            let p = text::split(text::trim(line), '|');
            let e = ipmi::entry_in(line)->0;
            &&& p.len() == 5 || p.len() == 4 ==> {
                &&& ipmi::entry_in(line) is Some
                &&& e.id == text::trim(p[0])
                &&& e.when == text::trim(p[1])
                &&& e.sensor == text::trim(p[2])
            }
            &&& p.len() == 5 ==> {
                &&& text::trim(p[4]).len() > 0 ==> e.text == text::trim(p[3]) + " ("@ + text::lower(
                    text::trim(p[4]),
                ) + ")"@
                &&& text::trim(p[4]).len() == 0 ==> e.text == text::trim(p[3])
                &&& e.severity == ipmi::severity_of(text::trim(p[3]), text::trim(p[4]))
            }
            &&& p.len() == 4 ==> {
                &&& e.text == text::trim(p[3])
                &&& e.severity == ipmi::severity_of(text::trim(p[3]), Seq::empty())
            }
            &&& p.len() < 4 ==> ipmi::entry_in(line) is None
        }),
{
}

/// The records of two lists of lines are those of the one and then those of the
/// other; a single line has the record that it is, or none.
pub proof fn records_come_line_by_line(a: Seq<Seq<char>>, b: Seq<Seq<char>>, line: Seq<char>)
    ensures
        ipmi::entries_in(a + b) == ipmi::entries_in(a) + ipmi::entries_in(b),
        ipmi::entry_in(line) is Some ==> ipmi::entries_in(seq![line]) == seq![
            ipmi::entry_in(line)->0,
        ],
        ipmi::entry_in(line) is None ==> ipmi::entries_in(seq![line]).len() == 0,
    decreases b.len(),
{
    reveal_with_fuel(ipmi::entries_in, 2);
    assert(seq![line].drop_last() == Seq::<Seq<char>>::empty());
    if b.len() == 0 {
        assert(a + b == a);
        assert(ipmi::entries_in(a) + ipmi::entries_in(b) == ipmi::entries_in(a));
    } else {
        records_come_line_by_line(a, b.drop_last(), line);
        assert((a + b).drop_last() == a + b.drop_last());
        assert((a + b).last() == b.last());
        assert(ipmi::entries_in(a + b) =~= ipmi::entries_in(a) + ipmi::entries_in(b));
    }
}

/// The log shows the last record of the output first, and the first one last.
pub proof fn the_last_record_comes_first(out: Seq<char>, i: int)
    requires
        0 <= i < ipmi::entries_in(text::lines(out)).len(),
    ensures
        ({
            let records = ipmi::entries_in(text::lines(out));
            &&& ipmi::log_in(out).len() == records.len()
            &&& ipmi::log_in(out)[i] == records[records.len() - 1 - i]
        }),
{
}

// --- sensors -------------------------------------------------------------------

/// Whether `status` is the third of the fields that bars set apart in `line`.
pub open spec fn third_of(
    line: Seq<char>,
    name: Seq<char>,
    reading: Seq<char>,
    status: Seq<char>,
    rest: Seq<char>,
) -> bool {
    &&& line == name + seq!['|'] + (reading + seq!['|'] + (status + rest))
    &&& text_laws::lacks(name, '|')
    &&& text_laws::lacks(reading, '|')
    &&& text_laws::lacks(status, '|')
    &&& rest.len() == 0 || rest[0] == '|'
}

/// Whether `status`, trimmed and in any case, is one of the words.
pub open spec fn is_one_of(status: Seq<char>, words: Seq<Seq<char>>) -> bool {
    exists|i: int|
        0 <= i < words.len() && text::same_letters(text::trim(status), #[trigger] words[i])
}

pub open spec fn critical_statuses() -> Seq<Seq<char>> {
    seq!["cr"@, "lcr"@, "ucr"@, "nr"@, "lnr"@, "unr"@, "critical"@]
}

pub open spec fn warning_statuses() -> Seq<Seq<char>> {
    seq!["nc"@, "lnc"@, "unc"@, "warning"@]
}

pub open spec fn good_statuses() -> Seq<Seq<char>> {
    seq!["ok"@]
}

/// Whether the line has a third field that is one of the words.
pub open spec fn shows(line: Seq<char>, words: Seq<Seq<char>>) -> bool {
    exists|name: Seq<char>, reading: Seq<char>, status: Seq<char>, rest: Seq<char>|
        #[trigger] third_of(line, name, reading, status, rest) && is_one_of(status, words)
}

proof fn lemma_status_words()
    ensures
        forall|i: int|
            0 <= i < 7 ==> text::lower(#[trigger] critical_statuses()[i]) == critical_statuses()[i],
        forall|i: int|
            0 <= i < 4 ==> text::lower(#[trigger] warning_statuses()[i]) == warning_statuses()[i],
        text::lower("ok"@) == "ok"@,
{
    reveal_strlit("cr");
    reveal_strlit("lcr");
    reveal_strlit("ucr");
    reveal_strlit("nr");
    reveal_strlit("lnr");
    reveal_strlit("unr");
    reveal_strlit("critical");
    reveal_strlit("nc");
    reveal_strlit("lnc");
    reveal_strlit("unc");
    reveal_strlit("warning");
    reveal_strlit("ok");
    assert(text::lower("cr"@) =~= "cr"@);
    assert(text::lower("lcr"@) =~= "lcr"@);
    assert(text::lower("ucr"@) =~= "ucr"@);
    assert(text::lower("nr"@) =~= "nr"@);
    assert(text::lower("lnr"@) =~= "lnr"@);
    assert(text::lower("unr"@) =~= "unr"@);
    assert(text::lower("critical"@) =~= "critical"@);
    assert(text::lower("nc"@) =~= "nc"@);
    assert(text::lower("lnc"@) =~= "lnc"@);
    assert(text::lower("unc"@) =~= "unc"@);
    assert(text::lower("warning"@) =~= "warning"@);
    assert(text::lower("ok"@) =~= "ok"@);
}

/// No word stands in two of the lists.
proof fn lemma_statuses_differ(i: int, j: int)
    requires
        0 <= i < 7,
        0 <= j < 4,
    ensures
        critical_statuses()[i] != warning_statuses()[j],
        critical_statuses()[i] != "ok"@,
        warning_statuses()[j] != "ok"@,
{
    reveal_strlit("cr");
    reveal_strlit("lcr");
    reveal_strlit("ucr");
    reveal_strlit("nr");
    reveal_strlit("lnr");
    reveal_strlit("unr");
    reveal_strlit("critical");
    reveal_strlit("nc");
    reveal_strlit("lnc");
    reveal_strlit("unc");
    reveal_strlit("warning");
    reveal_strlit("ok");
    let c = critical_statuses()[i];
    let w = warning_statuses()[j];
    assert(c.last() == 'r' || c.last() == 'l');
    assert(w.last() == 'c' || w.last() == 'g');
    assert("ok"@.last() == 'k');
}

proof fn lemma_third_field(
    line: Seq<char>,
    name: Seq<char>,
    reading: Seq<char>,
    status: Seq<char>,
    rest: Seq<char>,
)
    requires
        third_of(line, name, reading, status, rest),
    ensures
        text::split(line, '|').len() >= 3,
        text::split(line, '|')[2] == status,
{
    let tail = status + rest;
    text_laws::a_text_is_split_at_each_separator(name, '|', reading + seq!['|'] + tail);
    text_laws::a_text_is_split_at_each_separator(reading, '|', tail);
    if rest.len() == 0 {
        assert(tail == status);
        text_laws::a_text_is_split_at_each_separator(status, '|', rest);
    } else {
        text_laws::a_text_is_split_at_each_separator(status, '|', rest.drop_first());
        assert(rest == seq!['|'] + rest.drop_first());
        assert(tail == status + seq!['|'] + rest.drop_first());
    }
}

proof fn lemma_has_third_field(line: Seq<char>)
    requires
        text::split(line, '|').len() >= 3,
    ensures
        exists|name: Seq<char>, reading: Seq<char>, status: Seq<char>, rest: Seq<char>|
            #[trigger] third_of(line, name, reading, status, rest) && status == text::split(
                line,
                '|',
            )[2],
{
    let p = text::split(line, '|');
    text_laws::lemma_first_part(line, '|');
    let name = p[0];
    let s1 = line.skip(name.len() as int + 1);
    assert(text::split(s1, '|')[0] == p[1]);
    assert(text::split(s1, '|')[1] == p[2]);
    text_laws::lemma_first_part(s1, '|');
    let reading = p[1];
    let s2 = s1.skip(reading.len() as int + 1);
    assert(text::split(s2, '|')[0] == p[2]);
    let status = p[2];
    if text::split(s2, '|').len() > 1 {
        text_laws::lemma_first_part(s2, '|');
        let rest = seq!['|'] + s2.skip(status.len() as int + 1);
        assert(s2 == status + rest);
        assert(third_of(line, name, reading, status, rest));
    } else {
        text_laws::lemma_found(s2, text::equals('|'));
        let i = text::find(s2, text::equals('|'));
        assert(text::split(s2.skip(i + 1), '|').len() >= 1);
        assert(i == s2.len());
        let rest = Seq::<char>::empty();
        assert(s2 == status);
        assert(s2 == status + rest);
        assert(third_of(line, name, reading, status, rest));
    }
}

proof fn lemma_level(line: Seq<char>)
    ensures
        ipmi::level_in(line) == Some(Health::Critical) <==> shows(line, critical_statuses()),
        ipmi::level_in(line) == Some(Health::Warning) <==> shows(line, warning_statuses()),
        ipmi::level_in(line) == Some(Health::Nominal) <==> shows(line, good_statuses()),
        ipmi::level_in(line) != Some(Health::Unknown),
{
    lemma_status_words();
    let c = critical_statuses();
    let w = warning_statuses();
    let g = good_statuses();
    assert forall|words: Seq<Seq<char>>| #[trigger] shows(line, words) implies text::split(
        line,
        '|',
    ).len() >= 3 && is_one_of(text::split(line, '|')[2], words) by {
        let (name, reading, status, rest) = choose|
            name: Seq<char>,
            reading: Seq<char>,
            status: Seq<char>,
            rest: Seq<char>,
        |
            #[trigger] third_of(line, name, reading, status, rest) && is_one_of(status, words);
        lemma_third_field(line, name, reading, status, rest);
    }
    if text::split(line, '|').len() >= 3 {
        let status = text::split(line, '|')[2];
        let st = text::lower(text::trim(status));
        lemma_has_third_field(line);
        assert forall|words: Seq<Seq<char>>| is_one_of(status, words) implies #[trigger] shows(
            line,
            words,
        ) by {
            let (name, reading, s, rest) = choose|
                name: Seq<char>,
                reading: Seq<char>,
                s: Seq<char>,
                rest: Seq<char>,
            |
                #[trigger] third_of(line, name, reading, s, rest) && s == status;
            assert(third_of(line, name, reading, s, rest) && is_one_of(s, words));
        }
        assert forall|i: int, j: int| 0 <= i < 7 && 0 <= j < 4 implies #[trigger] c[i]
            != #[trigger] w[j] && c[i] != "ok"@ && w[j] != "ok"@ by {
            lemma_statuses_differ(i, j);
        }
        assert(w[0] != "ok"@ && w[1] != "ok"@ && w[2] != "ok"@ && w[3] != "ok"@) by {
            lemma_statuses_differ(0, 0);
            lemma_statuses_differ(0, 1);
            lemma_statuses_differ(0, 2);
            lemma_statuses_differ(0, 3);
        }
        assert forall|i: int| 0 <= i < 7 implies #[trigger] c[i] != "ok"@ by {
            lemma_statuses_differ(i, 0);
        }
        if st == c[0] || st == c[1] || st == c[2] || st == c[3] || st == c[4] || st == c[5] || st
            == c[6] {
            assert(is_one_of(status, c));
        }
        if st == w[0] || st == w[1] || st == w[2] || st == w[3] {
            assert(is_one_of(status, w));
        }
        if st == g[0] {
            assert(is_one_of(status, g));
        }
        assert(shows(line, c) ==> is_one_of(status, c));
        assert(shows(line, w) ==> is_one_of(status, w));
        assert(shows(line, g) ==> is_one_of(status, g));
    }
}

/// The health of an output is critical exactly if the third field of one of its lines
/// is a critical status; a warning exactly if none is and one is a status of warning;
/// nominal exactly if there is neither and one is ok. Otherwise it is unknown.
pub proof fn the_statuses_of_the_lines_tell_the_health(out: Seq<char>)
    ensures
        ({
            let lines = text::lines(out);
            let critical = exists|i: int|
                0 <= i < lines.len() && shows(#[trigger] lines[i], critical_statuses());
            let warning = exists|i: int|
                0 <= i < lines.len() && shows(#[trigger] lines[i], warning_statuses());
            let good = exists|i: int|
                0 <= i < lines.len() && shows(#[trigger] lines[i], good_statuses());
            &&& ipmi::health_in(out) == Health::Critical <==> critical
            &&& ipmi::health_in(out) == Health::Warning <==> warning && !critical
            &&& ipmi::health_in(out) == Health::Nominal <==> good && !warning && !critical
            &&& ipmi::health_in(out) == Health::Unknown <==> !good && !warning && !critical
        }),
{
    let lines = text::lines(out);
    ipmi::health_is_the_worst_sensor(out);
    assert forall|i: int| 0 <= i < lines.len() implies {
        &&& ipmi::level_in(#[trigger] lines[i]) == Some(Health::Critical) <==> shows(
            lines[i],
            critical_statuses(),
        )
        &&& ipmi::level_in(lines[i]) == Some(Health::Warning) <==> shows(
            lines[i],
            warning_statuses(),
        )
        &&& ipmi::level_in(lines[i]) == Some(Health::Nominal) <==> shows(lines[i], good_statuses())
        &&& ipmi::level_in(lines[i]) != Some(Health::Unknown)
    } by {
        lemma_level(lines[i]);
    }
    let h = ipmi::health_in(out);
    if h != Health::Unknown {
        let k = choose|k: int|
            0 <= k < lines.len() && ipmi::level_in(#[trigger] lines[k]) == Some(h);
        assert(ipmi::level_in(lines[k]) == Some(h));
    } else if exists|i: int| 0 <= i < lines.len() && ipmi::level_in(#[trigger] lines[i]) is Some {
        let k = choose|k: int| 0 <= k < lines.len() && ipmi::level_in(#[trigger] lines[k]) is Some;
        assert(h != Health::Unknown);
    }
}

/// A critical status on any line makes the health critical, and a status of warning
/// makes it at least a warning, wherever the line stands.
pub proof fn one_bad_sensor_is_enough(
    out: Seq<char>,
    i: int,
    name: Seq<char>,
    reading: Seq<char>,
    status: Seq<char>,
    rest: Seq<char>,
)
    requires
        0 <= i < text::lines(out).len(),
        third_of(text::lines(out)[i], name, reading, status, rest),
    ensures
        is_one_of(status, critical_statuses()) ==> ipmi::health_in(out) == Health::Critical,
        is_one_of(status, warning_statuses()) ==> ipmi::health_in(out) == Health::Warning
            || ipmi::health_in(out) == Health::Critical,
{
    the_statuses_of_the_lines_tell_the_health(out);
    let line = text::lines(out)[i];
    if is_one_of(status, critical_statuses()) {
        assert(shows(line, critical_statuses()));
    }
    if is_one_of(status, warning_statuses()) {
        assert(shows(line, warning_statuses()));
    }
}

// --- running ipmitool ----------------------------------------------------------

/// What `ipmitool` is run with: the interface, the machine's host and user, the
/// password from the environment, and then the subcommand as it is.
pub proof fn ipmitool_is_run_for_the_machine(
    host: Seq<char>,
    user: Seq<char>,
    command: Seq<Seq<char>>,
    i: int,
)
    ensures
        ({
            let a = ipmi::arguments(host, user, command);
            &&& a.len() == 7 + command.len()
            &&& a[0] == "-I"@ && a[1] == "lanplus"@
            &&& a[2] == "-H"@ && a[3] == host
            &&& a[4] == "-U"@ && a[5] == user
            &&& a[6] == "-E"@
            &&& 0 <= i < command.len() ==> a[7 + i] == command[i]
        }),
{
}

/// A failed run is told by the first line of its complaint; one that said nothing by
/// a word of its own.
pub proof fn a_failure_is_told_in_one_line(stderr: Seq<char>)
    ensures
        text::lines(text::trim(stderr)).len() > 0 ==> ipmi::complaint(stderr) == text::lines(
            text::trim(stderr),
        )[0],
        text::lines(text::trim(stderr)).len() == 0 ==> ipmi::complaint(stderr)
            == "ipmitool error"@,
{
}

/// A run that succeeded comes to its output, whatever it complained of; one that
/// failed to its complaint, whatever it put out.
pub proof fn a_run_comes_to_its_output_or_its_complaint(stdout: Seq<char>, stderr: Seq<char>)
    ensures
        ipmi::comes_to(true, stdout, stderr) == Ok::<Seq<char>, Seq<char>>(stdout),
        ipmi::comes_to(false, stdout, stderr) == Err::<Seq<char>, Seq<char>>(
            ipmi::complaint(stderr),
        ),
{
}

/// The words of the questions.
pub proof fn the_words_of_the_questions(q: Question)
    ensures
        ({
            let w = ipmi::asking(q);
            &&& q is Status ==> w == seq!["chassis"@, "status"@]
            &&& q is Boot ==> w == seq!["chassis"@, "bootparam"@, "get"@, "5"@]
            &&& q is Inventory ==> w == seq!["fru"@]
            &&& q is Network ==> w == seq!["lan"@, "print"@, "1"@]
            &&& q is Sensors ==> w == seq!["sdr"@, "list"@]
            &&& q is Controller ==> w == seq!["mc"@, "info"@]
            &&& q is Accounts ==> w == seq!["user"@, "list"@, "1"@]
            &&& q is Log ==> w == seq!["sel"@, "elist"@]
            &&& q is EndConsole ==> w == seq!["sol"@, "deactivate"@]
            &&& q is Console ==> w == seq!["sol"@, "activate"@]
        }),
{
}

/// A health is told exactly if the sensors answered.
pub proof fn a_health_is_told_if_the_sensors_answer(reply: Result<Seq<char>, Seq<char>>)
    ensures
        reply is Ok ==> ipmi::health_told(reply) == Some(ipmi::health_in(reply->Ok_0)),
        reply is Err ==> ipmi::health_told(reply) is None,
{
}

/// Without an answer about the controller there is no overview but its error. Any
/// other call that fails leaves out what it would have told, as an empty answer would.
pub proof fn only_the_controller_is_needed_for_an_overview(
    mc: Result<Seq<char>, Seq<char>>,
    fru: Result<Seq<char>, Seq<char>>,
    lan: Result<Seq<char>, Seq<char>>,
    chassis: Result<Seq<char>, Seq<char>>,
)
    ensures
        ({
            let ov = ipmi::overview_told(mc, fru, lan, chassis);
            let none = Ok::<Seq<char>, Seq<char>>(Seq::empty());
            &&& mc is Err ==> ov is Err && ov->Err_0 == mc->Err_0
            &&& mc is Ok ==> ov is Ok
            &&& fru is Err ==> ov == ipmi::overview_told(mc, none, lan, chassis)
            &&& lan is Err ==> ov == ipmi::overview_told(mc, fru, none, chassis)
            &&& chassis is Err ==> ov == ipmi::overview_told(mc, fru, lan, none)
            &&& mc is Ok && fru is Ok && lan is Ok && chassis is Ok ==> ov->Ok_0
                == ipmi::overview_of(mc->Ok_0, fru->Ok_0, lan->Ok_0, chassis->Ok_0)
        }),
{
}

/// A probe asks for the chassis status, then for the boot flags, and then, if the
/// static fields are wanted, for the inventory and the network of the BMC.
pub proof fn a_probe_asks_in_this_order(fetch_static: bool, replies: Seq<Seq<char>>)
    requires
        replies.len() == 4,
    ensures
        ({
            let s0 = PowerProbeView::start(fetch_static);
            let s1 = s0.after(Ok(replies[0]));
            let s2 = s1.after(Ok(replies[1]));
            let s3 = s2.after(Ok(replies[2]));
            let s4 = s3.after(Ok(replies[3]));
            &&& s0.command() == Some(seq!["chassis"@, "status"@])
            &&& s1.command() == Some(seq!["chassis"@, "bootparam"@, "get"@, "5"@])
            &&& fetch_static ==> s2.command() == Some(seq!["fru"@])
            &&& fetch_static ==> s3.command() == Some(seq!["lan"@, "print"@, "1"@])
            &&& fetch_static ==> s4.command() is None
            &&& !fetch_static ==> s2.command() is None
        }),
{
}

/// A probe that does not get the chassis status asks for nothing more.
pub proof fn a_probe_without_a_status_is_over(fetch_static: bool, error: Seq<char>)
    ensures
        ({
            let s = PowerProbeView::start(fetch_static).after(Err(error));
            &&& s.stage == ProbeStage::Done
            &&& s.command() is None
            &&& !s.poll.reachable
            &&& s.poll.error == Some(error)
        }),
{
}

// --- overview ------------------------------------------------------------------

/// Whether the facts hold `label` with `value`.
pub open spec fn tells(
    facts: Seq<(Seq<char>, Seq<char>)>,
    label: Seq<char>,
    value: Option<Seq<char>>,
) -> bool {
    value is Some && text::trim(value->0).len() > 0 ==> facts.contains(
        (label, text::trim(value->0)),
    )
}

proof fn lemma_fact_in(
    a: Seq<(Seq<char>, Seq<char>)>,
    label: Seq<char>,
    value: Option<Seq<char>>,
    b: Seq<(Seq<char>, Seq<char>)>,
)
    ensures
        tells(a + super::fact(label, value) + b, label, value),
{
    if value is Some && text::trim(value->0).len() > 0 {
        let s = a + super::fact(label, value) + b;
        assert(s[a.len() as int] == (label, text::trim(value->0)));
    }
}

/// What stands in facts still does when more follow.
pub proof fn lemma_still_tells(
    a: Seq<(Seq<char>, Seq<char>)>,
    b: Seq<(Seq<char>, Seq<char>)>,
    label: Seq<char>,
    value: Option<Seq<char>>,
)
    requires
        tells(a, label, value),
    ensures
        tells(a + b, label, value),
{
    if value is Some && text::trim(value->0).len() > 0 {
        let x = (label, text::trim(value->0));
        let k = choose|k: int| 0 <= k < a.len() && a[k] == x;
        assert((a + b)[k] == x);
    }
}

/// The labels of the overview, in the order in which they are shown.
pub open spec fn overview_labels() -> Seq<Seq<char>> {
    seq![
        "Power"@,
        "Vendor"@,
        "Product"@,
        "Board"@,
        "Serial"@,
        "Part Number"@,
        "BMC Firmware"@,
        "IPMI Version"@,
        "BMC MAC"@,
        "BMC IP"@,
        "BMC Subnet"@,
        "BMC Gateway"@,
        "VLAN"@,
    ]
}

/// The overview tells each fact under its label, from the output that it is read
/// from: the power, who made the machine, what it is, its serials, and the firmware
/// and the network of its BMC. It tells nothing else, and in this order.
pub proof fn the_overview_tells_each_fact(
    mc: Seq<char>,
    fru: Seq<char>,
    lan: Seq<char>,
    chassis: Seq<char>,
)
    ensures
        ({
            let ov = ipmi::overview_of(mc, fru, lan, chassis);
            let power = match ipmi::power_in(chassis) {
                PowerState::On => "on"@,
                PowerState::Off => "off"@,
                PowerState::Unknown => "unknown"@,
            };
            let maker = ipmi::field(fru, "Product Manufacturer"@);
            &&& tells(ov, "Power"@, Some(power))
            &&& maker is Some ==> tells(ov, "Vendor"@, maker)
            &&& maker is None ==> tells(ov, "Vendor"@, ipmi::field(mc, "Manufacturer Name"@))
            &&& tells(ov, "Product"@, ipmi::field(fru, "Product Name"@))
            &&& tells(ov, "Board"@, ipmi::field(fru, "Board Product"@))
            &&& tells(ov, "Serial"@, ipmi::serial_in(fru))
            &&& tells(ov, "Part Number"@, ipmi::field(fru, "Product Part Number"@))
            &&& tells(ov, "BMC Firmware"@, ipmi::field(mc, "Firmware Revision"@))
            &&& tells(ov, "IPMI Version"@, ipmi::field(mc, "IPMI Version"@))
            &&& tells(ov, "BMC MAC"@, ipmi::field(lan, "MAC Address"@))
            &&& tells(ov, "BMC IP"@, ipmi::field(lan, "IP Address"@))
            &&& tells(ov, "BMC Subnet"@, ipmi::field(lan, "Subnet Mask"@))
            &&& tells(ov, "BMC Gateway"@, ipmi::field(lan, "Default Gateway IP"@))
            &&& tells(ov, "VLAN"@, ipmi::field(lan, "802.1q VLAN ID"@))
            &&& exists|values: Seq<Option<Seq<char>>>|
                ov == #[trigger] facts_of(overview_labels(), values, 13)
        }),
{
    let power = ipmi::power_word(ipmi::power_in(chassis));
    let vendor = ipmi::or_else(
        ipmi::field(fru, "Product Manufacturer"@),
        ipmi::field(mc, "Manufacturer Name"@),
    );
    let labels = overview_labels();
    let values = seq![
        Some(power),
        vendor,
        ipmi::field(fru, "Product Name"@),
        ipmi::field(fru, "Board Product"@),
        ipmi::serial_in(fru),
        ipmi::field(fru, "Product Part Number"@),
        ipmi::field(mc, "Firmware Revision"@),
        ipmi::field(mc, "IPMI Version"@),
        ipmi::field(lan, "MAC Address"@),
        ipmi::field(lan, "IP Address"@),
        ipmi::field(lan, "Subnet Mask"@),
        ipmi::field(lan, "Default Gateway IP"@),
        ipmi::field(lan, "802.1q VLAN ID"@),
    ];
    reveal_with_fuel(facts_of, 14);
    assert(facts_of(labels, values, 13) =~= ipmi::overview_of(mc, fru, lan, chassis));
    assert forall|k: int| 0 <= k < 13 implies tells(
        facts_of(labels, values, 13),
        #[trigger] labels[k],
        values[k],
    ) by {
        lemma_facts_of(labels, values, 13, k);
    }
    assert(labels[0] == "Power"@ && labels[1] == "Vendor"@ && labels[2] == "Product"@);
    assert(labels[3] == "Board"@ && labels[4] == "Serial"@ && labels[5] == "Part Number"@);
    assert(labels[6] == "BMC Firmware"@ && labels[7] == "IPMI Version"@);
    assert(labels[8] == "BMC MAC"@ && labels[9] == "BMC IP"@ && labels[10] == "BMC Subnet"@);
    assert(labels[11] == "BMC Gateway"@ && labels[12] == "VLAN"@);
}

/// The facts of the first `n` labels.
pub open spec fn facts_of(
    labels: Seq<Seq<char>>,
    values: Seq<Option<Seq<char>>>,
    n: nat,
) -> Seq<(Seq<char>, Seq<char>)>
    decreases n,
{
    if n == 0 {
        seq![]
    } else {
        facts_of(labels, values, (n - 1) as nat) + super::fact(labels[n - 1], values[n - 1])
    }
}

/// Each of the facts is told.
pub proof fn lemma_facts_of(
    labels: Seq<Seq<char>>,
    values: Seq<Option<Seq<char>>>,
    n: nat,
    k: int,
)
    requires
        0 <= k < n,
    ensures
        tells(facts_of(labels, values, n), labels[k], values[k]),
    decreases n,
{
    let front = facts_of(labels, values, (n - 1) as nat);
    let last = super::fact(labels[n - 1], values[n - 1]);
    if k == n - 1 {
        lemma_fact_in(front, labels[k], values[k], Seq::empty());
        assert(front + last + Seq::<(Seq<char>, Seq<char>)>::empty() == front + last);
    } else {
        lemma_facts_of(labels, values, (n - 1) as nat, k);
        lemma_still_tells(front, last, labels[k], values[k]);
    }
}

} // verus!
