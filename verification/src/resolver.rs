//! Name Resolver: maps an (owner id, resource name) pair to the
//! backend-qualified name `"{owner_lower}.{resource}"`.
//!
//! A resource name is normalized before use: it is trimmed, lower-cased
//! (ASCII), and every run of whitespace collapses to a single `'_'` filler.
//! The genre variant also folds every non-ASCII character into the same
//! filler runs. Normalization is pure, total and idempotent; rejecting empty
//! names is the caller's business.

use vstd::prelude::*;

verus! {

/// The whitespace characters the normalizer recognizes (the ASCII set).
pub open spec fn is_space(c: char) -> bool {
    c == ' ' || c == '\t' || c == '\n' || c == '\r' || c == '\u{c}'
}

/// ASCII lower-casing of one character; anything outside `'A'..='Z'` is kept.
pub open spec fn lower_char(c: char) -> char {
    if 65 <= c as u32 && c as u32 <= 90 {
        (((c as u32) + 32) as u32) as char
    } else {
        c
    }
}

/// Is `c` folded into the filler? Whitespace always is; in the genre
/// variant (`wide`), every non-ASCII character is folded as well.
pub open spec fn is_fill(c: char, wide: bool) -> bool {
    is_space(c) || (wide && c as u32 >= 128)
}

pub open spec fn trim_start(s: Seq<char>) -> Seq<char>
    decreases s.len(),
{
    if s.len() == 0 {
        s
    } else if is_space(s[0]) {
        trim_start(s.drop_first())
    } else {
        s
    }
}

pub open spec fn trim_end(s: Seq<char>) -> Seq<char>
    decreases s.len(),
{
    if s.len() == 0 {
        s
    } else if is_space(s.last()) {
        trim_end(s.drop_last())
    } else {
        s
    }
}

/// A sequence without leading and trailing whitespace.
pub open spec fn trim(s: Seq<char>) -> Seq<char> {
    trim_end(trim_start(s))
}

/// Lower-cases every character and collapses each run of filler-class
/// characters to a single `'_'`. `prev_fill` says whether the character just
/// before `s` belonged to such a run.
pub open spec fn collapse(s: Seq<char>, wide: bool, prev_fill: bool) -> Seq<char>
    decreases s.len(),
{
    if s.len() == 0 {
        Seq::<char>::empty()
    } else if is_fill(s[0], wide) {
        if prev_fill {
            collapse(s.drop_first(), wide, true)
        } else {
            seq!['_'] + collapse(s.drop_first(), wide, true)
        }
    } else {
        seq![lower_char(s[0])] + collapse(s.drop_first(), wide, false)
    }
}

/// The normalized form of a resource name: trimmed, ASCII lower-cased, with
/// filler runs collapsed to one `'_'` each.
pub open spec fn normalize_spec(s: Seq<char>, wide: bool) -> Seq<char> {
    collapse(trim(s), wide, false)
}

/// ASCII lower-casing of a whole sequence.
pub open spec fn lower_seq(s: Seq<char>) -> Seq<char> {
    s.map_values(|c: char| lower_char(c))
}

/// The backend-qualified name: the lower-cased owner, a dot, and the
/// resource name as given (assumed already normalized).
pub open spec fn qualify_spec(owner: Seq<char>, name: Seq<char>) -> Seq<char> {
    lower_seq(owner) + seq!['.'] + name
}

/// What `resolve` returns: the owner lower-cased and the name normalized,
/// joined by a dot.
pub open spec fn resolve_spec(owner: Seq<char>, name: Seq<char>, wide: bool) -> Seq<char> {
    qualify_spec(owner, normalize_spec(name, wide))
}

/// Relies on `String::push`: appends exactly the given character.
#[verifier::external_body]
fn push_char(s: &mut String, c: char)
    ensures
        final(s)@ == old(s)@.push(c),
{
    s.push(c);
}

fn is_space_exec(c: char) -> (r: bool)
    ensures
        r == is_space(c),
{
    c == ' ' || c == '\t' || c == '\n' || c == '\r' || c == '\u{c}'
}

fn is_fill_exec(c: char, wide: bool) -> (r: bool)
    ensures
        r == is_fill(c, wide),
{
    is_space_exec(c) || (wide && (c as u32) >= 128)
}

fn lower_char_exec(c: char) -> (r: char)
    ensures
        r == lower_char(c),
{
    let u = c as u32;
    if 65 <= u && u <= 90 {
        ((u + 32) as u8) as char
    } else {
        c
    }
}

fn normalize_with(name: &str, wide: bool) -> (r: String)
    ensures
        r@ == normalize_spec(name@, wide),
{
    let len = name.unicode_len();
    let mut start: usize = 0;
    proof {
        assert(name@.skip(0) =~= name@);
    }
    while start < len && is_space_exec(name.get_char(start))
        invariant
            start <= len,
            len == name@.len(),
            trim_start(name@) == trim_start(name@.skip(start as int)),
        decreases len - start,
    {
        proof {
            assert(name@.skip(start as int).drop_first() =~= name@.skip(start as int + 1));
        }
        start = start + 1;
    }
    proof {
        if start < len {
            assert(name@.skip(start as int)[0] == name@[start as int]);
        } else {
            assert(name@.skip(start as int) =~= Seq::<char>::empty());
        }
        assert(trim_start(name@) == name@.skip(start as int));
        assert(name@.skip(start as int).take(len - start as int) =~= name@.skip(start as int));
    }
    let mut end: usize = len;
    while end > start && is_space_exec(name.get_char(end - 1))
        invariant
            start <= end <= len,
            len == name@.len(),
            trim_start(name@) == name@.skip(start as int),
            trim_end(name@.skip(start as int)) == trim_end(
                name@.skip(start as int).take(end - start as int),
            ),
        decreases end,
    {
        proof {
            let t = name@.skip(start as int);
            let u = t.take(end - start as int);
            assert(u.last() == name@[end - 1]);
            assert(u.drop_last() =~= t.take(end - 1 - start as int));
        }
        end = end - 1;
    }
    let ghost body = name@.skip(start as int).take(end - start as int);
    proof {
        let t = name@.skip(start as int);
        if end > start {
            assert(t.take(end - start as int).last() == name@[end - 1]);
        }
        assert(trim_end(t.take(end - start as int)) == t.take(end - start as int));
        assert(trim(name@) == body);
    }
    let mut out = String::new();
    proof {
        assert(body.skip(0) =~= body);
        assert(out@ + collapse(body, wide, false) =~= collapse(body, wide, false));
    }
    let mut prev_fill = false;
    let mut i: usize = start;
    while i < end
        invariant
            start <= i <= end <= len,
            len == name@.len(),
            body == name@.skip(start as int).take(end - start as int),
            normalize_spec(name@, wide) == out@ + collapse(
                body.skip(i - start as int),
                wide,
                prev_fill,
            ),
        decreases end - i,
    {
        let c = name.get_char(i);
        let ghost s_i = body.skip(i - start as int);
        proof {
            assert(body[i - start as int] == name@[i as int]);
            assert(s_i[0] == c);
            assert(s_i.drop_first() =~= body.skip(i + 1 - start as int));
        }
        let ghost out0 = out@;
        if is_fill_exec(c, wide) {
            if !prev_fill {
                push_char(&mut out, '_');
                proof {
                    assert(out@ + collapse(s_i.drop_first(), wide, true) =~= out0 + collapse(
                        s_i,
                        wide,
                        false,
                    ));
                }
            }
            prev_fill = true;
        } else {
            let lc = lower_char_exec(c);
            push_char(&mut out, lc);
            proof {
                assert(out@ + collapse(s_i.drop_first(), wide, false) =~= out0 + collapse(
                    s_i,
                    wide,
                    prev_fill,
                ));
            }
            prev_fill = false;
        }
        i = i + 1;
    }
    proof {
        assert(body.skip(end - start as int) =~= Seq::<char>::empty());
        assert(out@ + Seq::<char>::empty() =~= out@);
    }
    out
}

/// The normalized form of a resource name for the index variant: trimmed,
/// ASCII lower-cased, runs of whitespace collapsed to one `'_'`.
pub fn normalize(name: &str) -> (r: String)
    ensures
        r@ == normalize_spec(name@, false),
{
    normalize_with(name, false)
}

/// The normalized form of a resource name for the genre variant: as
/// `normalize`, and non-ASCII characters are folded into the filler runs too.
pub fn normalize_genre(name: &str) -> (r: String)
    ensures
        r@ == normalize_spec(name@, true),
{
    normalize_with(name, true)
}

/// Joins a (not re-normalized) resource name to its owner as
/// `"{owner_lower}.{name}"`.
pub fn qualify(owner: &str, name: &str) -> (r: String)
    ensures
        r@ == qualify_spec(owner@, name@),
{
    let olen = owner.unicode_len();
    let mut out = String::new();
    let mut i: usize = 0;
    while i < olen
        invariant
            i <= olen,
            olen == owner@.len(),
            out@ == lower_seq(owner@).take(i as int),
        decreases olen - i,
    {
        let c = lower_char_exec(owner.get_char(i));
        push_char(&mut out, c);
        proof {
            assert(lower_seq(owner@).take(i + 1) =~= lower_seq(owner@).take(i as int).push(
                lower_char(owner@[i as int]),
            ));
        }
        i = i + 1;
    }
    proof {
        assert(lower_seq(owner@).take(olen as int) =~= lower_seq(owner@));
    }
    push_char(&mut out, '.');
    out.append(name);
    proof {
        assert(out@ =~= qualify_spec(owner@, name@));
    }
    out
}

/// The Name Resolver for the index variant: normalizes the resource name and
/// qualifies it with the lower-cased owner id.
pub fn resolve(owner: &str, name: &str) -> (r: String)
    ensures
        r@ == resolve_spec(owner@, name@, false),
{
    let n = normalize(name);
    qualify(owner, n.as_str())
}

/// The Name Resolver for the genre variant.
pub fn resolve_genre(owner: &str, name: &str) -> (r: String)
    ensures
        r@ == resolve_spec(owner@, name@, true),
{
    let n = normalize_genre(name);
    qualify(owner, n.as_str())
}

/// A character that normalization leaves alone: no filler-class character and
/// no upper-case ASCII letter.
spec fn plain_char(c: char, wide: bool) -> bool {
    !is_fill(c, wide) && !(65 <= c as u32 <= 90)
}

spec fn all_plain(s: Seq<char>, wide: bool) -> bool {
    forall|j: int| 0 <= j < s.len() ==> plain_char(#[trigger] s[j], wide)
}

proof fn lemma_plain_fill(wide: bool)
    ensures
        plain_char('_', wide),
{
    assert('_' as u32 == 95);
    assert(' ' as u32 == 32 && '\t' as u32 == 9 && '\n' as u32 == 10 && '\r' as u32 == 13
        && '\u{c}' as u32 == 12);
}

proof fn lemma_plain_lower(c: char, wide: bool)
    requires
        !is_fill(c, wide),
    ensures
        plain_char(lower_char(c), wide),
{
    let r = lower_char(c);
    if 65 <= c as u32 && c as u32 <= 90 {
        assert(r as u32 == c as u32 + 32);
        assert(' ' as u32 == 32 && '\t' as u32 == 9 && '\n' as u32 == 10 && '\r' as u32 == 13
            && '\u{c}' as u32 == 12);
    }
}

proof fn lemma_collapse_chars(s: Seq<char>, wide: bool, pf: bool)
    ensures
        all_plain(collapse(s, wide, pf), wide),
    decreases s.len(),
{
    if s.len() == 0 {
    } else if is_fill(s[0], wide) {
        lemma_collapse_chars(s.drop_first(), wide, true);
        let rec = collapse(s.drop_first(), wide, true);
        if !pf {
            lemma_plain_fill(wide);
            let n = collapse(s, wide, pf);
            assert(n == seq!['_'] + rec);
            assert forall|j: int| 0 <= j < n.len() implies plain_char(#[trigger] n[j], wide) by {
                if j > 0 {
                    assert(n[j] == rec[j - 1]);
                }
            }
        }
    } else {
        lemma_collapse_chars(s.drop_first(), wide, false);
        let rec = collapse(s.drop_first(), wide, false);
        lemma_plain_lower(s[0], wide);
        let n = collapse(s, wide, pf);
        assert(n == seq![lower_char(s[0])] + rec);
        assert forall|j: int| 0 <= j < n.len() implies plain_char(#[trigger] n[j], wide) by {
            if j > 0 {
                assert(n[j] == rec[j - 1]);
            }
        }
    }
}

proof fn lemma_collapse_fixed(s: Seq<char>, wide: bool)
    requires
        all_plain(s, wide),
    ensures
        collapse(s, wide, false) == s,
    decreases s.len(),
{
    if s.len() == 0 {
        assert(collapse(s, wide, false) =~= s);
    } else {
        assert(plain_char(s[0], wide));
        lemma_collapse_fixed(s.drop_first(), wide);
        assert(lower_char(s[0]) == s[0]);
        assert(seq![s[0]] + s.drop_first() =~= s);
    }
}

/// Normalization is idempotent: normalizing a normalized name changes nothing.
pub proof fn lemma_normalize_idempotent(s: Seq<char>, wide: bool)
    ensures
        normalize_spec(normalize_spec(s, wide), wide) == normalize_spec(s, wide),
{
    let n = normalize_spec(s, wide);
    lemma_collapse_chars(trim(s), wide, false);
    assert(all_plain(n, wide));
    if n.len() > 0 {
        assert(plain_char(n[0], wide));
        assert(plain_char(n.last(), wide));
    }
    assert(trim_start(n) == n);
    assert(trim_end(n) == n);
    lemma_collapse_fixed(n, wide);
}

/// Law: the Name Resolver is idempotent on already-normalized input; an
/// already-normalized resource name resolves to the same qualified name as
/// the raw one.
pub proof fn law_resolve_idempotent(owner: Seq<char>, name: Seq<char>, wide: bool)
    ensures
        resolve_spec(owner, normalize_spec(name, wide), wide) == resolve_spec(owner, name, wide),
{
    lemma_normalize_idempotent(name, wide);
}

} // verus!
