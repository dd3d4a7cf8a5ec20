//! Placeholder substitution in a CSS template.
//!
//! A placeholder for key `k` is the text `/*[[k]]*/`. The template is read
//! once, from left to right. Where placeholders of several known keys start at
//! the same position, the longest one is taken. Replacement text is copied to
//! the output as it is and never scanned again.

use vstd::prelude::*;
use crate::settings_map::{SettingsMap, entries_map, entry_key, keys_distinct, lemma_entries_map_at};

verus! {

/// The placeholder text for `key`: `/*[[` + key + `]]*/`.
pub open spec fn placeholder(key: Seq<char>) -> Seq<char> {
    seq!['/', '*', '[', '['] + key + seq![']', ']', '*', '/']
}

/// `s` begins with `p`.
pub open spec fn starts_with(s: Seq<char>, p: Seq<char>) -> bool {
    p.len() <= s.len() && s.subrange(0, p.len() as int) == p
}

/// `s` begins with the placeholder of `k`, a key of `m`.
pub open spec fn placeholder_at(m: Map<Seq<char>, Seq<char>>, s: Seq<char>, k: Seq<char>) -> bool {
    m.contains_key(k) && starts_with(s, placeholder(k))
}

/// `k` is the longest key of `m` whose placeholder begins `s`.
pub open spec fn longest_placeholder_at(
    m: Map<Seq<char>, Seq<char>>,
    s: Seq<char>,
    k: Seq<char>,
) -> bool {
    placeholder_at(m, s, k) && forall|k2: Seq<char>|
        #[trigger] placeholder_at(m, s, k2) ==> k2.len() <= k.len()
}

/// The key whose placeholder is replaced at the start of `s`, if any.
pub open spec fn matched_key(m: Map<Seq<char>, Seq<char>>, s: Seq<char>) -> Option<Seq<char>> {
    if exists|k: Seq<char>| longest_placeholder_at(m, s, k) {
        Some(choose|k: Seq<char>| longest_placeholder_at(m, s, k))
    } else {
        None
    }
}

/// `s` with every placeholder of a key of `m` replaced by that key's value,
/// in one left-to-right pass.
pub open spec fn substitute(m: Map<Seq<char>, Seq<char>>, s: Seq<char>) -> Seq<char>
    decreases s.len(),
    via substitute_decreases
{
    if s.len() == 0 {
        Seq::empty()
    } else {
        match matched_key(m, s) {
            Some(k) => m[k] + substitute(m, s.skip(placeholder(k).len() as int)),
            None => seq![s[0]] + substitute(m, s.skip(1)),
        }
    }
}

#[via_fn]
proof fn substitute_decreases(m: Map<Seq<char>, Seq<char>>, s: Seq<char>) {
    if s.len() != 0 {
        match matched_key(m, s) {
            Some(k) => {
                assert(longest_placeholder_at(m, s, k));
            },
            None => {},
        }
    }
}

/// `s` with every occurrence of `p` replaced by `v`, left to right and
/// without overlap.
pub open spec fn replace_all(s: Seq<char>, p: Seq<char>, v: Seq<char>) -> Seq<char>
    decreases s.len(),
{
    if s.len() == 0 {
        Seq::empty()
    } else if 0 < p.len() && starts_with(s, p) {
        v + replace_all(s.skip(p.len() as int), p, v)
    } else {
        seq![s[0]] + replace_all(s.skip(1), p, v)
    }
}

/// Two keys with the same placeholder are the same key.
pub proof fn lemma_placeholder_injective(a: Seq<char>, b: Seq<char>)
    requires
        placeholder(a) == placeholder(b),
    ensures
        a == b,
{
    assert(placeholder(a).len() == a.len() + 8);
    assert(placeholder(b).len() == b.len() + 8);
    assert(a =~= placeholder(a).subrange(4, 4 + a.len() as int));
    assert(b =~= placeholder(b).subrange(4, 4 + b.len() as int));
}

/// Two keys whose placeholders both begin `s` and have the same length are the
/// same key.
proof fn lemma_same_length_same_key(s: Seq<char>, a: Seq<char>, b: Seq<char>)
    requires
        starts_with(s, placeholder(a)),
        starts_with(s, placeholder(b)),
        a.len() == b.len(),
    ensures
        a == b,
{
    lemma_placeholder_injective(a, b);
}

/// With no keys, substitution leaves the text as it is.
pub proof fn lemma_substitute_no_keys(m: Map<Seq<char>, Seq<char>>, s: Seq<char>)
    requires
        m.dom() =~= Set::<Seq<char>>::empty(),
    ensures
        substitute(m, s) == s,
    decreases s.len(),
{
    if s.len() > 0 {
        assert(!exists|k: Seq<char>| longest_placeholder_at(m, s, k));
        lemma_substitute_no_keys(m, s.skip(1));
        assert(seq![s[0]] + s.skip(1) =~= s);
    }
}

/// A text that is exactly the placeholder of a key of `m` becomes that key's
/// value.
pub proof fn lemma_substitute_placeholder_alone(m: Map<Seq<char>, Seq<char>>, k: Seq<char>)
    requires
        m.contains_key(k),
    ensures
        substitute(m, placeholder(k)) == m[k],
{
    let s = placeholder(k);
    assert(s.subrange(0, s.len() as int) =~= s);
    assert(placeholder_at(m, s, k));
    assert forall|k2: Seq<char>| #[trigger] placeholder_at(m, s, k2) implies k2.len() <= k.len() by {}
    assert(longest_placeholder_at(m, s, k));
    let k3 = choose|k3: Seq<char>| longest_placeholder_at(m, s, k3);
    lemma_same_length_same_key(s, k, k3);
    assert(matched_key(m, s) == Some(k));
    assert(s.skip(s.len() as int) =~= Seq::<char>::empty());
    assert(substitute(m, s.skip(s.len() as int)) == Seq::<char>::empty());
    assert(m[k] + Seq::<char>::empty() =~= m[k]);
    assert(s.len() > 0);
}

/// With a single key, substitution replaces every occurrence of its
/// placeholder, left to right.
pub proof fn lemma_substitute_one_key(k: Seq<char>, v: Seq<char>, s: Seq<char>)
    ensures
        substitute(map![k => v], s) == replace_all(s, placeholder(k), v),
    decreases s.len(),
{
    let m = map![k => v];
    if s.len() > 0 {
        if starts_with(s, placeholder(k)) {
            assert(placeholder_at(m, s, k));
            assert(longest_placeholder_at(m, s, k));
            let k3 = choose|k3: Seq<char>| longest_placeholder_at(m, s, k3);
            assert(m.contains_key(k3));
            assert(matched_key(m, s) == Some(k));
            lemma_substitute_one_key(k, v, s.skip(placeholder(k).len() as int));
        } else {
            assert forall|k2: Seq<char>| !longest_placeholder_at(m, s, k2) by {
                if m.contains_key(k2) {
                    assert(k2 == k);
                }
            }
            lemma_substitute_one_key(k, v, s.skip(1));
        }
    }
}

/// The characters of `s`.
pub fn chars_of(s: &str) -> (r: Vec<char>)
    ensures
        r@ == s@,
{
    let mut r: Vec<char> = Vec::new();
    for c in it: s.chars()
        invariant
            r@ == it.seq().take(it.index() as int),
    {
        r.push(c);
    }
    r
}

/// The characters of the placeholder for `key`.
fn placeholder_chars(key: &String) -> (r: Vec<char>)
    ensures
        r@ == placeholder(key@),
{
    let mut r: Vec<char> = Vec::new();
    r.push('/');
    r.push('*');
    r.push('[');
    r.push('[');
    let mut k = chars_of(key.as_str());
    r.append(&mut k);
    r.push(']');
    r.push(']');
    r.push('*');
    r.push('/');
    assert(r@ =~= placeholder(key@));
    r
}

/// Whether `s`, from position `i` on, begins with `p`.
fn starts_at(s: &Vec<char>, i: usize, p: &Vec<char>) -> (r: bool)
    requires
        i <= s@.len(),
    ensures
        r == starts_with(s@.skip(i as int), p@),
{
    if p.len() > s.len() - i {
        return false;
    }
    let n: usize = s.len();
    let mut j: usize = 0;
    while j < p.len()
        invariant
            n == s@.len(),
            i <= s@.len(),
            p@.len() <= s@.len() - i,
            j <= p@.len(),
            forall|t: int| 0 <= t < j ==> s@[i + t] == p@[t],
        decreases p@.len() - j,
    {
        if s[i + j] != p[j] {
            assert(s@.skip(i as int).subrange(0, p@.len() as int)[j as int] != p@[j as int]);
            return false;
        }
        j = j + 1;
    }
    assert(s@.skip(i as int).subrange(0, p@.len() as int) =~= p@);
    true
}

/// The template `css` with every placeholder of a key of `values` replaced by
/// that key's value, in one left-to-right pass.
pub fn substitute_placeholders(css: &String, values: &SettingsMap) -> (r: String)
    requires
        values.wf(),
    ensures
        r@ == substitute(values@, css@),
{
    let ghost m = values@;
    let entries = values.as_entries();
    proof {
        values.lemma_view();
    }
    let mut tokens: Vec<Vec<char>> = Vec::new();
    for j in 0..entries.len()
        invariant
            entries@ == values.entries(),
            tokens@.len() == j,
            forall|t: int| 0 <= t < j ==> #[trigger] tokens@[t]@ == placeholder(entries@[t].0@),
    {
        tokens.push(placeholder_chars(&entries[j].0));
    }
    let cs = chars_of(css.as_str());
    let mut out = String::new();
    let mut start: usize = 0;
    let mut i: usize = 0;
    proof {
        assert(cs@.subrange(0, 0) =~= Seq::<char>::empty());
        assert(cs@.skip(0) =~= cs@);
        assert(out@ + cs@.subrange(0, 0) =~= Seq::<char>::empty());
    }
    while i < cs.len()
        invariant
            entries@ == values.entries(),
            keys_distinct(entries@),
            m == entries_map(entries@),
            tokens@.len() == entries@.len(),
            forall|t: int|
                0 <= t < tokens@.len() ==> #[trigger] tokens@[t]@ == placeholder(entries@[t].0@),
            cs@ == css@,
            start <= i <= cs@.len(),
            out@ + cs@.subrange(start as int, i as int) + substitute(m, cs@.skip(i as int))
                == substitute(m, cs@),
        decreases cs@.len() - i,
    {
        let ghost s = cs@.skip(i as int);
        let mut best: Option<usize> = None;
        for j in 0..tokens.len()
            invariant
                tokens@.len() == entries@.len(),
                forall|t: int|
                    0 <= t < tokens@.len() ==> #[trigger] tokens@[t]@ == placeholder(
                        entries@[t].0@,
                    ),
                i < cs@.len(),
                s == cs@.skip(i as int),
                match best {
                    Some(b) => b < j && starts_with(s, tokens@[b as int]@) && forall|t: int|
                        0 <= t < j && starts_with(s, #[trigger] tokens@[t]@) ==> tokens@[t]@.len()
                            <= tokens@[b as int]@.len(),
                    None => forall|t: int| 0 <= t < j ==> !starts_with(s, #[trigger] tokens@[t]@),
                },
        {
            if starts_at(&cs, i, &tokens[j]) {
                match best {
                    Some(b) => {
                        if tokens[j].len() > tokens[b].len() {
                            best = Some(j);
                        }
                    },
                    None => {
                        best = Some(j);
                    },
                }
            }
        }
        match best {
            Some(b) => {
                let ghost k = entries@[b as int].0@;
                proof {
                    lemma_entries_map_at(entries@, b as int);
                    assert(entry_key(entries@, b as int) == k);
                    assert forall|k2: Seq<char>| #[trigger] placeholder_at(m, s, k2) implies k2.len()
                        <= k.len() by {
                        let t = choose|t: int|
                            0 <= t < entries@.len() && entry_key(entries@, t) == k2;
                        assert(starts_with(s, tokens@[t]@));
                    }
                    assert(longest_placeholder_at(m, s, k));
                    let k3 = choose|k3: Seq<char>| longest_placeholder_at(m, s, k3);
                    lemma_same_length_same_key(s, k, k3);
                    assert(matched_key(m, s) == Some(k));
                    assert(s.len() > 0);
                }
                let piece = css.as_str().substring_char(start, i);
                out.append(piece);
                out.append(entries[b].1.as_str());
                let ghost old_i = i;
                i = i + tokens[b].len();
                start = i;
                proof {
                    assert(cs@.skip(old_i as int).skip(placeholder(k).len() as int) =~= cs@.skip(
                        i as int,
                    ));
                    assert(cs@.subrange(i as int, i as int) =~= Seq::<char>::empty());
                }
            },
            None => {
                proof {
                    assert forall|k2: Seq<char>| !longest_placeholder_at(m, s, k2) by {
                        if placeholder_at(m, s, k2) {
                            let t = choose|t: int|
                                0 <= t < entries@.len() && entry_key(entries@, t) == k2;
                            assert(starts_with(s, tokens@[t]@));
                        }
                    }
                    assert(matched_key(m, s) == None::<Seq<char>>);
                    assert(s.skip(1) =~= cs@.skip(i + 1));
                    assert(cs@.subrange(start as int, i + 1) =~= cs@.subrange(start as int, i as int)
                        + seq![s[0]]);
                }
                i = i + 1;
            },
        }
    }
    let piece = css.as_str().substring_char(start, i);
    out.append(piece);
    proof {
        assert(cs@.skip(i as int) =~= Seq::<char>::empty());
    }
    out
}

} // verus!
