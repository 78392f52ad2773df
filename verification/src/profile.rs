//! Volume profiles: named snapshots of application volumes, stored as
//! `<name>.json` in the profiles folder. A profile name must be a safe
//! Windows file name, so that the stored path never leaves that folder.
use vstd::prelude::*;

use crate::device::AudioSession;
use crate::equalizer_apo::unit_result;
use crate::str_map::{chars_less, lemma_text_less_irreflexive, lemma_text_less_transitive, text_less};
use crate::settings::{is_path_separator, joined_with, plain_file_name, verbatim_path};
use crate::text::{
    append_str, ascii_lower, ascii_upper, chars_of, control, eq_ignore_ascii_case, is_control,
    matches_at, string_from_range, trim, trim_bounds, upper_chars,
};

verus! {

/// Message for an empty name or one with surrounding white space.
pub open spec fn name_blank_message() -> Seq<char> {
    "配置名称不能为空，且首尾不能包含空格"@
}

/// Message for a name longer than 64 characters.
pub open spec fn name_long_message() -> Seq<char> {
    "配置名称不能超过 64 个字符"@
}

/// Message for a name with a character Windows refuses in file names.
pub open spec fn name_character_message() -> Seq<char> {
    "配置名称包含 Windows 文件名不允许的字符"@
}

/// Message for a reserved Windows device name.
pub open spec fn name_reserved_message() -> Seq<char> {
    "配置名称不能使用 Windows 保留设备名"@
}

/// Characters Windows refuses in file names, besides control characters.
pub open spec fn forbidden_char(c: char) -> bool {
    c == '/' || c == '\\' || c == ':' || c == '*' || c == '?' || c == '"' || c == '<' || c == '>'
        || c == '|'
}

/// The part of a name before its first '.'.
pub open spec fn stem(name: Seq<char>) -> Seq<char>
    decreases name.len(),
{
    if name.len() == 0 || name[0] == '.' {
        seq![]
    } else {
        seq![name[0]] + stem(name.drop_first())
    }
}

/// An ASCII decimal digit.
pub open spec fn ascii_digit(c: char) -> bool {
    48 <= (c as u32) <= 57
}

/// The value of a string of ASCII digits.
pub open spec fn digits_value(d: Seq<char>) -> int
    decreases d.len(),
{
    if d.len() == 0 {
        0
    } else {
        digits_value(d.drop_last()) * 10 + ((d.last() as u32) - ('0' as u32))
    }
}

/// The digits of a port number, after an optional '+'.
pub open spec fn port_digits(suffix: Seq<char>) -> Seq<char> {
    if suffix.len() > 0 && suffix[0] == '+' {
        suffix.drop_first()
    } else {
        suffix
    }
}

/// What `str::parse::<u8>` accepts with a value from 1 to 9: an optional
/// '+', then at least one ASCII digit, with that value.
pub open spec fn small_port_number(suffix: Seq<char>) -> bool {
    &&& port_digits(suffix).len() > 0
    &&& forall|i: int| 0 <= i < port_digits(suffix).len() ==> ascii_digit(#[trigger] port_digits(suffix)[i])
    &&& 1 <= digits_value(port_digits(suffix)) <= 9
}

/// A reserved device name: CON, PRN, AUX, NUL, or COM / LPT with a port
/// number from 1 to 9, compared in ASCII upper case.
pub open spec fn reserved_stem(s: Seq<char>) -> bool {
    ||| s == "CON"@
    ||| s == "PRN"@
    ||| s == "AUX"@
    ||| s == "NUL"@
    ||| (s.len() >= 3 && (s.take(3) == "COM"@ || s.take(3) == "LPT"@) && small_port_number(s.skip(3)))
}

/// The outcome of validating a profile name: not empty and already trimmed,
/// at most 64 characters, no control or forbidden character and no trailing
/// dot or space, and no reserved device name before the first dot; checked
/// in that order.
pub open spec fn profile_name_check(name: Seq<char>) -> Result<(), Seq<char>> {
    if name.len() == 0 || trim(name) != name {
        Err(name_blank_message())
    } else if name.len() > 64 {
        Err(name_long_message())
    } else if (exists|i: int|
        0 <= i < name.len() && (is_control(#[trigger] name[i]) || forbidden_char(name[i])))
        || name.last() == '.' || name.last() == ' ' {
        Err(name_character_message())
    } else if reserved_stem(ascii_upper(stem(name))) {
        Err(name_reserved_message())
    } else {
        Ok(())
    }
}

proof fn lemma_digits_zero(d: Seq<char>)
    requires
        forall|i: int| 0 <= i < d.len() ==> ascii_digit(#[trigger] d[i]),
    ensures
        digits_value(d) >= 0,
        digits_value(d) == 0 <==> forall|i: int| 0 <= i < d.len() ==> (#[trigger] d[i] as u32) == 48,
    decreases d.len(),
{
    if d.len() > 0 {
        let p = d.drop_last();
        assert forall|i: int| 0 <= i < p.len() implies ascii_digit(#[trigger] p[i]) by {
            assert(p[i] == d[i]);
        }
        lemma_digits_zero(p);
        assert(ascii_digit(d[d.len() - 1]));
        if forall|i: int| 0 <= i < d.len() ==> (#[trigger] d[i] as u32) == 48 {
            assert forall|i: int| 0 <= i < p.len() implies (#[trigger] p[i] as u32) == 48 by {
                assert(p[i] == d[i]);
            }
        }
        if digits_value(d) == 0 {
            assert forall|i: int| 0 <= i < d.len() implies (#[trigger] d[i] as u32) == 48 by {
                if i < d.len() - 1 {
                    assert(p[i] == d[i]);
                }
            }
        }
    }
}

/// A value from 1 to 9: only zeros before a last digit that is not zero.
proof fn lemma_digits_small(d: Seq<char>)
    requires
        d.len() > 0,
        forall|i: int| 0 <= i < d.len() ==> ascii_digit(#[trigger] d[i]),
    ensures
        (1 <= digits_value(d) <= 9) <==> ((d.last() as u32) != 48 && forall|i: int|
            0 <= i < d.len() - 1 ==> (#[trigger] d[i] as u32) == 48),
{
    let p = d.drop_last();
    assert forall|i: int| 0 <= i < p.len() implies ascii_digit(#[trigger] p[i]) by {
        assert(p[i] == d[i]);
    }
    lemma_digits_zero(p);
    assert(ascii_digit(d.last()));
    if forall|i: int| 0 <= i < d.len() - 1 ==> (#[trigger] d[i] as u32) == 48 {
        assert forall|i: int| 0 <= i < p.len() implies (#[trigger] p[i] as u32) == 48 by {
            assert(p[i] == d[i]);
        }
    }
    if digits_value(p) == 0 {
        assert forall|i: int| 0 <= i < d.len() - 1 implies (#[trigger] d[i] as u32) == 48 by {
            assert(p[i] == d[i]);
        }
    }
}

fn small_port(suffix: &[char]) -> (r: bool)
    ensures
        r == small_port_number(suffix@),
{
    let start: usize = if suffix.len() > 0 && suffix[0] == '+' {
        1
    } else {
        0
    };
    let ghost d = suffix@.skip(start as int);
    assert(d =~= port_digits(suffix@));
    if start >= suffix.len() {
        return false;
    }
    let mut i: usize = start;
    while i < suffix.len()
        invariant
            start <= i <= suffix@.len(),
            d == suffix@.skip(start as int),
            d == port_digits(suffix@),
            forall|j: int| 0 <= j < i - start ==> ascii_digit(#[trigger] d[j]),
        decreases suffix@.len() - i,
    {
        let c = suffix[i];
        assert(d[i - start] == c);
        let v = c as u32;
        if !(48 <= v && v <= 57) {
            assert(!ascii_digit(d[i - start]));
            return false;
        }
        i += 1;
    }
    proof {
        lemma_digits_small(d);
    }
    let last = suffix.len() - 1;
    let mut k: usize = start;
    while k < last
        invariant
            start <= k <= last,
            last == suffix@.len() - 1,
            d == suffix@.skip(start as int),
            d == port_digits(suffix@),
            forall|j: int| 0 <= j < d.len() ==> ascii_digit(#[trigger] d[j]),
            (1 <= digits_value(d) <= 9) <==> ((d.last() as u32) != 48 && forall|j: int|
                0 <= j < d.len() - 1 ==> (#[trigger] d[j] as u32) == 48),
            forall|j: int| 0 <= j < k - start ==> (#[trigger] d[j] as u32) == 48,
        decreases last - k,
    {
        assert(d[k - start] == suffix@[k as int]);
        if suffix[k] as u32 != 48 {
            return false;
        }
        k += 1;
    }
    assert(d.last() == suffix@[suffix@.len() - 1]);
    suffix[last] as u32 != 48
}

/// Whether the characters are exactly the given text.
fn is_text(s: &[char], text: &str) -> (r: bool)
    ensures
        r == (s@ == text@),
{
    let t = chars_of(text);
    crate::text::chars_equal(s, t.as_slice())
}

fn reserved(s: &[char]) -> (r: bool)
    ensures
        r == reserved_stem(s@),
{
    if is_text(s, "CON") || is_text(s, "PRN") || is_text(s, "AUX") || is_text(s, "NUL") {
        return true;
    }
    proof {
        reveal_strlit("COM");
        reveal_strlit("LPT");
    }
    if s.len() < 3 {
        return false;
    }
    let com = chars_of("COM");
    let lpt = chars_of("LPT");
    let prefixed = matches_at(s, com.as_slice(), 0) || matches_at(s, lpt.as_slice(), 0);
    assert(s@.subrange(0, 3) =~= s@.take(3));
    if !prefixed {
        return false;
    }
    let mut rest: Vec<char> = Vec::new();
    let mut i: usize = 3;
    while i < s.len()
        invariant
            3 <= i <= s@.len(),
            rest@ =~= s@.subrange(3, i as int),
        decreases s@.len() - i,
    {
        rest.push(s[i]);
        i += 1;
    }
    assert(rest@ =~= s@.skip(3));
    small_port(rest.as_slice())
}

fn stem_chars(name: &[char]) -> (res: Vec<char>)
    ensures
        res@ == stem(name@),
{
    let mut out: Vec<char> = Vec::new();
    let mut i: usize = 0;
    assert(name@.skip(0) =~= name@);
    while i < name.len() && name[i] != '.'
        invariant
            i <= name@.len(),
            out@ + stem(name@.skip(i as int)) == stem(name@),
        decreases name@.len() - i,
    {
        let ghost t = name@.skip(i as int);
        assert(t[0] == name@[i as int]);
        assert(t.drop_first() =~= name@.skip(i + 1));
        out.push(name[i]);
        assert(out@ + stem(name@.skip(i + 1)) =~= out@.drop_last() + (seq![name@[i as int]] + stem(
            name@.skip(i + 1),
        )));
        i += 1;
    }
    proof {
        let t = name@.skip(i as int);
        if i < name@.len() {
            assert(t[0] == name@[i as int]);
        }
        assert(stem(t) =~= Seq::<char>::empty());
        assert(out@ + Seq::<char>::empty() =~= out@);
    }
    out
}

/// Validates a profile name.
pub fn validate_name(name: &str) -> (res: Result<(), String>)
    ensures
        unit_result(res) == profile_name_check(name@),
{
    let chars = chars_of(name);
    let n = chars.len();
    let (a, b) = trim_bounds(chars.as_slice());
    if n == 0 || a != 0 || b != n {
        proof {
            if n > 0 && a == 0 && b == n {
                assert(chars@.subrange(0, n as int) =~= chars@);
            } else if n > 0 {
                assert(trim(name@).len() == b - a);
            }
        }
        return Err(String::from_str("配置名称不能为空，且首尾不能包含空格"));
    }
    assert(chars@.subrange(0, n as int) =~= chars@);
    if n > 64 {
        return Err(String::from_str("配置名称不能超过 64 个字符"));
    }
    let mut i: usize = 0;
    while i < n
        invariant
            i <= n == chars@.len(),
            chars@ == name@,
            0 < n <= 64,
            trim(name@) == name@,
            forall|j: int| 0 <= j < i ==> !(is_control(#[trigger] chars@[j]) || forbidden_char(chars@[j])),
        decreases n - i,
    {
        let c = chars[i];
        if control(c) || c == '/' || c == '\\' || c == ':' || c == '*' || c == '?' || c == '"' || c
            == '<' || c == '>' || c == '|' {
            assert(is_control(chars@[i as int]) || forbidden_char(chars@[i as int]));
            return Err(String::from_str("配置名称包含 Windows 文件名不允许的字符"));
        }
        i += 1;
    }
    assert(name@.last() == chars@[n - 1]);
    if chars[n - 1] == '.' || chars[n - 1] == ' ' {
        return Err(String::from_str("配置名称包含 Windows 文件名不允许的字符"));
    }
    let s = stem_chars(chars.as_slice());
    let upper = upper_chars(s.as_slice());
    if reserved(upper.as_slice()) {
        return Err(String::from_str("配置名称不能使用 Windows 保留设备名"));
    }
    Ok(())
}

/// The file of a profile in the profiles folder: `<name>.json`, for a valid
/// name.
pub fn profile_path(profiles_dir: &str, name: &str) -> (res: Result<String, String>)
    ensures
        match res {
            Ok(path) => profile_name_check(name@) is Ok && (!verbatim_path(profiles_dir@)
                ==> joined_with(profiles_dir@, name@ + ".json"@, path@)),
            Err(e) => profile_name_check(name@) == Err::<(), Seq<char>>(e@),
        },
{
    match validate_name(name) {
        Err(e) => Err(e),
        Ok(()) => {
            let mut file = String::from_str(name);
            append_str(&mut file, ".json");
            proof {
                reveal_strlit(".json");
                let f = file@;
                assert forall|i: int| 0 <= i < f.len() implies !is_path_separator(#[trigger] f[i])
                    && f[i] != ':' by {
                    if i < name@.len() {
                        assert(f[i] == name@[i]);
                        assert(!forbidden_char(name@[i]));
                    }
                }
            }
            Ok(crate::settings::join_path(profiles_dir, file.as_str()))
        },
    }
}

// ---------------------------------------------------------------------------
// Profiles and their files
// ---------------------------------------------------------------------------

/// The saved volume of one application.
#[derive(Debug)]
pub struct ProfileEntry<V> {
    pub pid: u32,
    pub display_name: String,
    pub volume: V,
    pub muted: bool,
}

/// A named set of application volumes.
#[derive(Debug)]
pub struct Profile<V> {
    pub name: String,
    pub entries: Vec<ProfileEntry<V>>,
}

/// The view of a profile entry.
pub open spec fn entry_of<V>(s: AudioSession<V>) -> (u32, Seq<char>, V, bool) {
    (s.pid, s.display_name@, s.volume, s.muted)
}

/// The view of a saved entry.
pub open spec fn saved_entry<V>(e: ProfileEntry<V>) -> (u32, Seq<char>, V, bool) {
    (e.pid, e.display_name@, e.volume, e.muted)
}

impl<V: Copy> Profile<V> {
    /// A profile of the current sessions, one entry per session in order.
    pub fn from_sessions(name: &str, sessions: &[AudioSession<V>]) -> (res: Self)
        ensures
            res.name@ == name@,
            res.entries@.map_values(|e: ProfileEntry<V>| saved_entry(e)) == sessions@.map_values(
                |s: AudioSession<V>| entry_of(s),
            ),
    {
        let mut entries: Vec<ProfileEntry<V>> = Vec::new();
        let mut i: usize = 0;
        while i < sessions.len()
            invariant
                i <= sessions@.len(),
                entries@.map_values(|e: ProfileEntry<V>| saved_entry(e)) =~= sessions@.take(
                    i as int,
                ).map_values(|s: AudioSession<V>| entry_of(s)),
            decreases sessions@.len() - i,
        {
            let s = &sessions[i];
            let ghost prev = entries@;
            entries.push(
                ProfileEntry {
                    pid: s.pid,
                    display_name: s.display_name.clone(),
                    volume: s.volume,
                    muted: s.muted,
                },
            );
            assert(sessions@.take(i + 1) =~= sessions@.take(i as int).push(sessions@[i as int]));
            assert(entries@.map_values(|e: ProfileEntry<V>| saved_entry(e)) =~= prev.map_values(
                |e: ProfileEntry<V>| saved_entry(e),
            ).push(entry_of(sessions@[i as int])));
            i += 1;
        }
        assert(sessions@.take(sessions@.len() as int) =~= sessions@);
        Profile { name: String::from_str(name), entries }
    }
}

/// The session a saved entry is applied to: its process when that process
/// still has a session, else the first session whose display name matches
/// ignoring ASCII case (the application was restarted).
pub open spec fn apply_pid<V>(pid: u32, display_name: Seq<char>, sessions: Seq<AudioSession<V>>) -> Option<u32> {
    if exists|i: int| 0 <= i < sessions.len() && (#[trigger] sessions[i]).pid == pid {
        Some(pid)
    } else {
        first_named(display_name, sessions)
    }
}

/// The process of the first session with this display name, ignoring ASCII
/// case.
pub open spec fn first_named<V>(display_name: Seq<char>, sessions: Seq<AudioSession<V>>) -> Option<u32>
    decreases sessions.len(),
{
    if sessions.len() == 0 {
        None
    } else if ascii_lower(sessions[0].display_name@) == ascii_lower(display_name) {
        Some(sessions[0].pid)
    } else {
        first_named(display_name, sessions.drop_first())
    }
}

/// Chooses the session a saved entry applies to.
pub fn apply_target<V>(pid: u32, display_name: &str, sessions: &[AudioSession<V>]) -> (res: Option<u32>)
    ensures
        res == apply_pid(pid, display_name@, sessions@),
{
    let mut i: usize = 0;
    while i < sessions.len()
        invariant
            i <= sessions@.len(),
            forall|j: int| 0 <= j < i ==> (#[trigger] sessions@[j]).pid != pid,
        decreases sessions@.len() - i,
    {
        if sessions[i].pid == pid {
            return Some(pid);
        }
        i += 1;
    }
    let mut k: usize = 0;
    assert(sessions@.skip(0) =~= sessions@);
    while k < sessions.len()
        invariant
            k <= sessions@.len(),
            forall|j: int| 0 <= j < sessions@.len() ==> (#[trigger] sessions@[j]).pid != pid,
            first_named(display_name@, sessions@) == first_named(display_name@, sessions@.skip(k as int)),
        decreases sessions@.len() - k,
    {
        let ghost t = sessions@.skip(k as int);
        assert(t[0] == sessions@[k as int]);
        assert(t.drop_first() =~= sessions@.skip(k + 1));
        if eq_ignore_ascii_case(sessions[k].display_name.as_str(), display_name) {
            return Some(sessions[k].pid);
        }
        k += 1;
    }
    None
}

/// `s` with every trailing copy of ".json" removed (`str::trim_end_matches`).
pub open spec fn strip_json(s: Seq<char>) -> Seq<char>
    decreases s.len(),
{
    if s.len() >= 5 && s.skip(s.len() - 5) == ".json"@ {
        strip_json(s.take(s.len() - 5))
    } else {
        s
    }
}

/// The profile a file in the profiles folder holds: a ".json" file whose
/// name, without its ".json" endings, is a valid profile name.
pub open spec fn profile_of_file(file_name: Seq<char>) -> Option<Seq<char>> {
    if file_name.len() >= 5 && file_name.skip(file_name.len() - 5) == ".json"@ && profile_name_check(
        strip_json(file_name),
    ) is Ok {
        Some(strip_json(file_name))
    } else {
        None
    }
}

/// The profile name a file holds, if any.
pub fn profile_name_of_file(file_name: &str) -> (res: Option<String>)
    ensures
        match res {
            Some(n) => profile_of_file(file_name@) == Some(n@),
            None => profile_of_file(file_name@) is None,
        },
{
    let chars = chars_of(file_name);
    let json = chars_of(".json");
    proof {
        reveal_strlit(".json");
    }
    let mut end: usize = chars.len();
    assert(chars@.take(end as int) =~= chars@);
    loop
        invariant
            end <= chars@.len(),
            chars@ == file_name@,
            json@ == ".json"@,
            strip_json(file_name@) == strip_json(chars@.take(end as int)),
        ensures
            end <= chars@.len(),
            strip_json(file_name@) == chars@.take(end as int),
        decreases end,
    {
        if end < 5 || !matches_at(chars.as_slice(), json.as_slice(), end - 5) {
            proof {
                let t = chars@.take(end as int);
                if t.len() >= 5 {
                    assert(t.skip(t.len() - 5) =~= chars@.subrange(end - 5, end as int));
                }
            }
            break;
        }
        proof {
            let t = chars@.take(end as int);
            assert(t.skip(t.len() - 5) =~= chars@.subrange(end - 5, end as int));
            assert(t.take(t.len() - 5) =~= chars@.take(end - 5));
            reveal_strlit(".json");
            assert(chars@.subrange(end - 5, end as int) == json@);
            assert(strip_json(t) == strip_json(t.take(t.len() - 5)));
        }
        end = end - 5;
    }
    let n = chars.len();
    let is_json = n >= 5 && matches_at(chars.as_slice(), json.as_slice(), n - 5);
    proof {
        if n >= 5 {
            assert(file_name@.skip(n - 5) =~= chars@.subrange(n - 5, n as int));
        }
    }
    if !is_json {
        return None;
    }
    let name = string_from_range(chars.as_slice(), 0, end);
    assert(chars@.subrange(0, end as int) =~= chars@.take(end as int));
    match validate_name(name.as_str()) {
        Ok(()) => Some(name),
        Err(_) => None,
    }
}

/// The texts of a list of strings.
pub open spec fn names_view(v: Seq<String>) -> Seq<Seq<char>> {
    v.map_values(|s: String| s@)
}

/// The names in ascending code-point order (`sort` on strings), each kept as
/// many times as it occurs.
pub fn sort_names(names: Vec<String>) -> (res: Vec<String>)
    ensures
        forall|a: int, b: int|
            0 <= a < b < res@.len() ==> !text_less(#[trigger] res@[b]@, #[trigger] res@[a]@),
        names_view(res@).to_multiset() == names_view(names@).to_multiset(),
{
    let ghost original = names_view(names@).to_multiset();
    let mut rest = names;
    let mut out: Vec<String> = Vec::new();
    proof {
        broadcast use vstd::seq_lib::group_to_multiset_ensures, vstd::multiset::group_multiset_axioms, vstd::multiset::group_multiset_properties;

        assert(names_view(out@) =~= Seq::<Seq<char>>::empty());
        assert(names_view(out@).to_multiset().len() == 0);
        assert(names_view(out@).to_multiset() =~= vstd::multiset::Multiset::empty());
        assert(names_view(out@).to_multiset().add(names_view(rest@).to_multiset()) =~= original);
    }
    while rest.len() > 0
        invariant
            forall|a: int, b: int|
                0 <= a < b < out@.len() ==> !text_less(#[trigger] out@[b]@, #[trigger] out@[a]@),
            forall|a: int, b: int|
                0 <= a < out@.len() && 0 <= b < rest@.len() ==> !text_less(
                    #[trigger] rest@[b]@,
                    #[trigger] out@[a]@,
                ),
            names_view(out@).to_multiset().add(names_view(rest@).to_multiset()) == original,
        decreases rest@.len(),
    {
        let mut m: usize = 0;
        let mut i: usize = 1;
        proof {
            lemma_text_less_irreflexive(rest@[0]@);
        }
        while i < rest.len()
            invariant
                m < i <= rest@.len(),
                forall|j: int| 0 <= j < i ==> !text_less(#[trigger] rest@[j]@, rest@[m as int]@),
            decreases rest@.len() - i,
        {
            let ci = chars_of(rest[i].as_str());
            let cm = chars_of(rest[m].as_str());
            if chars_less(ci.as_slice(), cm.as_slice()) {
                proof {
                    assert forall|j: int| 0 <= j <= i implies !text_less(#[trigger] rest@[j]@, rest@[i as int]@) by {
                        lemma_text_less_irreflexive(rest@[i as int]@);
                        if j < i && text_less(rest@[j]@, rest@[i as int]@) {
                            lemma_text_less_transitive(rest@[j]@, rest@[i as int]@, rest@[m as int]@);
                        }
                    }
                }
                m = i;
            }
            i += 1;
        }
        let ghost before_rest = rest@;
        let ghost before_out = out@;
        let x = rest.remove(m);
        proof {
            assert(names_view(rest@) =~= names_view(before_rest).remove(m as int));
            assert(names_view(before_rest)[m as int] == x@);
        }
        out.push(x);
        proof {
            assert(names_view(out@) =~= names_view(before_out).push(x@));
            let ms_out = names_view(before_out).to_multiset();
            let ms_rest = names_view(before_rest).to_multiset();
            broadcast use vstd::multiset::group_multiset_axioms;
            vstd::seq_lib::to_multiset_build(names_view(before_out), x@);
            vstd::seq_lib::to_multiset_remove(names_view(before_rest), m as int);
            vstd::seq_lib::to_multiset_contains(names_view(before_rest), x@);
            assert(names_view(out@).to_multiset() == ms_out.insert(x@));
            assert(names_view(rest@).to_multiset() == ms_rest.remove(x@));
            assert(ms_rest.count(x@) > 0) by {
                assert(names_view(before_rest).contains(x@)) by {
                    assert(names_view(before_rest)[m as int] == x@);
                }
            }
            assert(ms_out.insert(x@).add(ms_rest.remove(x@)) =~= ms_out.add(ms_rest));
            assert forall|a: int, b: int| 0 <= a < b < out@.len() implies !text_less(
                #[trigger] out@[b]@,
                #[trigger] out@[a]@,
            ) by {
                if b == out@.len() - 1 {
                    assert(out@[a] == before_out[a]);
                    assert(before_rest[m as int] == x);
                } else {
                    assert(out@[a] == before_out[a]);
                    assert(out@[b] == before_out[b]);
                }
            }
            assert forall|a: int, b: int| 0 <= a < out@.len() && 0 <= b < rest@.len() implies !text_less(
                #[trigger] rest@[b]@,
                #[trigger] out@[a]@,
            ) by {
                let b2 = if b < m { b } else { b + 1 };
                assert(rest@[b] == before_rest[b2]);
                if a == out@.len() - 1 {
                    assert(out@[a] == x);
                } else {
                    assert(out@[a] == before_out[a]);
                }
            }
        }
    }
    proof {
        broadcast use vstd::seq_lib::group_to_multiset_ensures, vstd::multiset::group_multiset_axioms, vstd::multiset::group_multiset_properties;

        assert(names_view(rest@) =~= Seq::<Seq<char>>::empty());
        assert(names_view(rest@).to_multiset().len() == 0);
        assert(names_view(rest@).to_multiset() =~= vstd::multiset::Multiset::empty());
        assert(names_view(out@).to_multiset().add(vstd::multiset::Multiset::empty()) =~= names_view(out@).to_multiset());
    }
    out
}

} // verus!
