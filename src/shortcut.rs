//! Checks on the text of a shortcut and on locale strings.

use vstd::prelude::*;
use vstd::string::StrSliceExecFns;
use vstd::string::StringExecFns;
use crate::text::{lower_of, string_from_chars, to_lower, trim_chars, trim_ws};

verus! {

/// The parts of `s` between `+` signs, empty ones included, with `cur` the
/// part in progress before `s`.
pub open spec fn plus_parts_from(s: Seq<char>, cur: Seq<char>) -> Seq<Seq<char>>
    decreases s.len(),
{
    if s.len() == 0 {
        seq![cur]
    } else if s[0] == '+' {
        seq![cur] + plus_parts_from(s.drop_first(), Seq::empty())
    } else {
        plus_parts_from(s.drop_first(), cur.push(s[0]))
    }
}

/// Names of the modifier keys.
pub open spec fn modifier_names() -> Seq<Seq<char>> {
    seq![
        "ctrl"@, "control"@, "shift"@, "alt"@, "option"@, "meta"@, "command"@, "cmd"@, "super"@, "win"@,
        "windows"@,
    ]
}

/// Whether a part of a shortcut names a modifier key, ignoring case and
/// surrounding white space.
pub open spec fn is_modifier_part(p: Seq<char>) -> bool {
    modifier_names().contains(lower_of(trim_ws(p)))
}

/// A shortcut is valid when some part of it is not a modifier.
pub open spec fn shortcut_valid(raw: Seq<char>) -> bool {
    exists|i: int| 0 <= i < plus_parts_from(raw, Seq::empty()).len()
        && !is_modifier_part(#[trigger] plus_parts_from(raw, Seq::empty())[i])
}

/// Whether one part (as characters) names a modifier.
fn part_is_modifier(part: &Vec<char>) -> (r: bool)
    ensures
        r == is_modifier_part(part@),
{
    let trimmed = trim_chars(part);
    let t = string_from_chars(&trimmed);
    let low = to_lower(t.as_str());
    let names = ["ctrl", "control", "shift", "alt", "option", "meta", "command", "cmd", "super", "win", "windows"];
    let mut i: usize = 0;
    let mut found = false;
    while i < 11
        invariant
            0 <= i <= 11,
            names@.len() == 11,
            forall|j: int| 0 <= j < 11 ==> (#[trigger] names@[j])@ == modifier_names()[j],
            found == (exists|j: int| 0 <= j < i && modifier_names()[j] == low@),
        decreases 11 - i,
    {
        let name = String::from_str(names[i]);
        if name == low {
            found = true;
        }
        i = i + 1;
    }
    proof {
        if found {
            let j = choose|j: int| 0 <= j < 11 && modifier_names()[j] == low@;
            assert(modifier_names()[j] == low@);
        } else {
            assert forall|j: int| 0 <= j < modifier_names().len() implies modifier_names()[j] != low@ by {}
        }
    }
    found
}

/// Accepts a shortcut only if it names at least one key that is not a
/// modifier.
pub fn validate_shortcut_string(raw: &str) -> (r: Result<(), String>)
    ensures
        r is Ok == shortcut_valid(raw@),
{
    let n = raw.unicode_len();
    let mut cur: Vec<char> = Vec::new();
    let ghost mut done: Seq<Seq<char>> = Seq::empty();
    let mut any = false;
    let mut i: usize = 0;
    proof {
        assert(raw@.skip(0) =~= raw@);
        assert(cur@ =~= Seq::<char>::empty());
        assert(done + plus_parts_from(raw@.skip(0), cur@) =~= plus_parts_from(raw@, Seq::empty()));
    }
    while i < n
        invariant
            n == raw@.len(),
            0 <= i <= n,
            plus_parts_from(raw@, Seq::empty()) == done + plus_parts_from(raw@.skip(i as int), cur@),
            any == (exists|j: int| 0 <= j < done.len() && !is_modifier_part(#[trigger] done[j])),
        decreases n - i,
    {
        let ch = raw.get_char(i);
        proof {
            assert(raw@.skip(i as int)[0] == ch);
            assert(raw@.skip(i as int).drop_first() =~= raw@.skip(i + 1));
        }
        if ch == '+' {
            let m = part_is_modifier(&cur);
            proof {
                let d2 = done.push(cur@);
                assert(d2[done.len() as int] == cur@);
                assert forall|j: int| 0 <= j < done.len() implies d2[j] == done[j] by {}
                assert(done + (seq![cur@] + plus_parts_from(raw@.skip(i + 1), Seq::empty()))
                    =~= d2 + plus_parts_from(raw@.skip(i + 1), Seq::empty()));
                if !m && !any {
                    assert(!is_modifier_part(d2[done.len() as int]));
                }
                done = d2;
            }
            if !m {
                any = true;
            }
            cur = Vec::new();
        } else {
            cur.push(ch);
        }
        i = i + 1;
    }
    let m = part_is_modifier(&cur);
    proof {
        assert(raw@.skip(i as int) =~= Seq::<char>::empty());
        let d2 = done.push(cur@);
        assert(done + seq![cur@] =~= d2);
        assert(d2[done.len() as int] == cur@);
        assert forall|j: int| 0 <= j < done.len() implies d2[j] == done[j] by {}
        if !m {
            assert(!is_modifier_part(d2[done.len() as int]));
        }
        done = d2;
    }
    if !m {
        any = true;
    }
    if any {
        Ok(())
    } else {
        Err(String::from_str("Shortcut must contain at least one non-modifier key"))
    }
}

/// The language part of a locale: what comes before the first `-` or `_`.
pub open spec fn language_len(s: Seq<char>) -> nat
    decreases s.len(),
{
    if s.len() == 0 || s[0] == '-' || s[0] == '_' { 0 } else { 1 + language_len(s.drop_first()) }
}

proof fn lemma_language_len(s: Seq<char>, i: int)
    requires
        0 <= i <= s.len(),
        forall|j: int| 0 <= j < i ==> #[trigger] s[j] != '-' && s[j] != '_',
        i == s.len() || s[i] == '-' || s[i] == '_',
    ensures
        language_len(s) == i,
    decreases i,
{
    if i > 0 {
        assert forall|j: int| 0 <= j < i - 1 implies #[trigger] s.drop_first()[j] != '-' && s.drop_first()[j] != '_' by {
            assert(s.drop_first()[j] == s[j + 1]);
        }
        if i < s.len() {
            assert(s.drop_first()[i - 1] == s[i]);
        }
        lemma_language_len(s.drop_first(), i - 1);
    }
}

/// The language code of a locale string (`en-US` gives `en`).
pub fn get_language_code(locale: &str) -> (r: &str)
    ensures
        r@ == locale@.take(language_len(locale@) as int),
{
    let n = locale.unicode_len();
    let mut i: usize = 0;
    while i < n && locale.get_char(i) != '-' && locale.get_char(i) != '_'
        invariant
            n == locale@.len(),
            0 <= i <= n,
            forall|j: int| 0 <= j < i ==> #[trigger] locale@[j] != '-' && locale@[j] != '_',
        decreases n - i,
    {
        i = i + 1;
    }
    proof {
        lemma_language_len(locale@, i as int);
    }
    let r = locale.substring_char(0, i);
    proof {
        assert(r@ =~= locale@.take(i as int));
    }
    r
}

} // verus!
