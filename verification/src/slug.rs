use vstd::prelude::*;

verus! {

use crate::errors::Error;

// ---------------------------------------------------------------------------
// Character classes
// ---------------------------------------------------------------------------

/// White space (the Unicode `White_Space` set): the characters whose runs the
/// derivation collapses to a single hyphen.
pub open spec fn spec_is_space(c: char) -> bool {
    (9 <= c as u32 && c as u32 <= 13)  // tab, line feed, vertical tab, form feed, carriage return
    || c as u32 == 32  // space
    || c as u32 == 0x85  // next line
    || c as u32 == 0xA0  // no-break space
    || c as u32 == 0x1680  // ogham space mark
    || (0x2000 <= c as u32 && c as u32 <= 0x200A)  // en quad .. hair space
    || c as u32 == 0x2028  // line separator
    || c as u32 == 0x2029  // paragraph separator
    || c as u32 == 0x202F  // narrow no-break space
    || c as u32 == 0x205F  // medium mathematical space
    || c as u32 == 0x3000  // ideographic space
}

/// ASCII letters, digits and the hyphen: the only characters a slug may hold.
pub open spec fn spec_is_url_char(c: char) -> bool {
    (97 <= c as u32 && c as u32 <= 122)  // a-z
    || (65 <= c as u32 && c as u32 <= 90)  // A-Z
    || (48 <= c as u32 && c as u32 <= 57)  // 0-9
    || c == '-'
}

/// An ASCII upper-case letter.
pub open spec fn spec_is_upper(c: char) -> bool {
    65 <= c as u32 && c as u32 <= 90
}

/// ASCII upper-case letters fold to lower case; every other character is kept.
pub open spec fn spec_lower(c: char) -> char {
    if spec_is_upper(c) {
        (c as u32 + 32) as char
    } else {
        c
    }
}

/// A valid explicit URL: one or more characters, each an ASCII letter, digit
/// or hyphen (the pattern `^[a-zA-Z0-9-]+$`).
pub open spec fn spec_valid_url(s: Seq<char>) -> bool {
    s.len() > 0 && forall|i: int| 0 <= i < s.len() ==> spec_is_url_char(#[trigger] s[i])
}

// ---------------------------------------------------------------------------
// Derivation
// ---------------------------------------------------------------------------

/// How one character of the title extends the slug built so far.  White space
/// and hyphens act as separators and contribute a single hyphen unless the
/// slug already ends in one; letters and digits are folded to lower case;
/// every other character is dropped.
///
/// This is the single pass equivalent to the four passes of the derivation
/// rule — collapse every white-space run to one hyphen, strip the characters
/// outside `[a-zA-Z0-9-]`, collapse the resulting hyphen runs, lower-case —
/// because each pass after the first only removes characters or merges
/// adjacent hyphens, which the "already ends in a hyphen" test accounts for.
pub open spec fn slug_step(acc: Seq<char>, c: char) -> Seq<char> {
    if spec_is_space(c) || c == '-' {
        if acc.len() > 0 && acc.last() == '-' {
            acc
        } else {
            acc.push('-')
        }
    } else if spec_is_url_char(c) {
        acc.push(spec_lower(c))
    } else {
        acc
    }
}

/// The slug derived from a title, one character at a time from the left.
pub open spec fn derive_slug(title: Seq<char>) -> Seq<char>
    decreases title.len(),
{
    if title.len() == 0 {
        Seq::empty()
    } else {
        slug_step(derive_slug(title.drop_last()), title.last())
    }
}

// ---------------------------------------------------------------------------
// Laws of the derivation
// ---------------------------------------------------------------------------

/// A sequence already in slug form: every character is a lower-case ASCII
/// letter, a digit or a hyphen, and no two hyphens are adjacent.
pub open spec fn canonical_slug(s: Seq<char>) -> bool {
    &&& forall|i: int|
        0 <= i < s.len() ==> spec_is_url_char(#[trigger] s[i]) && !spec_is_upper(s[i])
    &&& forall|i: int| 0 < i < s.len() ==> !(#[trigger] s[i] == '-' && s[i - 1] == '-')
}

/// Every derived slug is in slug form, and a non-empty one is itself a valid
/// explicit URL.
pub proof fn lemma_derive_slug_canonical(title: Seq<char>)
    ensures
        canonical_slug(derive_slug(title)),
        derive_slug(title).len() > 0 ==> spec_valid_url(derive_slug(title)),
    decreases title.len(),
{
    if title.len() > 0 {
        lemma_derive_slug_canonical(title.drop_last());
    }
}

/// A sequence already in slug form derives to itself.
pub proof fn lemma_derive_slug_fixed(s: Seq<char>)
    requires
        canonical_slug(s),
    ensures
        derive_slug(s) == s,
    decreases s.len(),
{
    if s.len() > 0 {
        assert(canonical_slug(s.drop_last()));
        lemma_derive_slug_fixed(s.drop_last());
        let c = s.last();
        assert(spec_is_url_char(c) && !spec_is_upper(c));
        assert(!spec_is_space(c));
        if c == '-' {
            assert(s.drop_last().len() > 0 ==> s.drop_last().last() != '-');
        } else {
            assert(spec_lower(c) == c);
        }
        assert(s.drop_last().push(s.last()) =~= s);
    } else {
        assert(derive_slug(s) =~= s);
    }
}

/// Slug derivation is idempotent: deriving a slug from an already derived
/// slug (treated as a new title) gives that slug back unchanged.
pub proof fn lemma_derive_slug_idempotent(title: Seq<char>)
    ensures
        derive_slug(derive_slug(title)) == derive_slug(title),
{
    lemma_derive_slug_canonical(title);
    lemma_derive_slug_fixed(derive_slug(title));
}

/// A string with any character outside `[a-zA-Z0-9-]` is not a valid
/// explicit URL.
pub proof fn lemma_invalid_char_invalidates(s: Seq<char>, i: int)
    requires
        0 <= i < s.len(),
        !spec_is_url_char(s[i]),
    ensures
        !spec_valid_url(s),
{
}

// ---------------------------------------------------------------------------
// Executable code
// ---------------------------------------------------------------------------

fn is_space(c: char) -> (r: bool)
    ensures
        r == spec_is_space(c),
{
    let u = c as u32;
    (9 <= u && u <= 13)
        || u == 32
        || u == 0x85
        || u == 0xA0
        || u == 0x1680
        || (0x2000 <= u && u <= 0x200A)
        || u == 0x2028
        || u == 0x2029
        || u == 0x202F
        || u == 0x205F
        || u == 0x3000
}

fn is_url_char(c: char) -> (r: bool)
    ensures
        r == spec_is_url_char(c),
{
    let u = c as u32;
    (97 <= u && u <= 122) || (65 <= u && u <= 90) || (48 <= u && u <= 57) || c == '-'
}

fn to_lower(c: char) -> (r: char)
    ensures
        r == spec_lower(c),
{
    let u = c as u32;
    if 65 <= u && u <= 90 {
        ((u as u8) + 32) as char
    } else {
        c
    }
}

/// Relies on std's `FromIterator<char> for String`: collecting characters
/// yields the string of exactly those characters.
#[verifier::external_body]
fn chars_to_string(v: &Vec<char>) -> (r: String)
    ensures
        r@ == v@,
{
    v.iter().collect()
}

/// Does the explicit URL match `^[a-zA-Z0-9-]+$`?
pub fn is_valid_url(url: &str) -> (r: bool)
    ensures
        r == spec_valid_url(url@),
{
    let n = url.unicode_len();
    if n == 0 {
        return false;
    }
    let mut i: usize = 0;
    while i < n
        invariant
            i <= n,
            n == url@.len(),
            forall|j: int| 0 <= j < i ==> spec_is_url_char(#[trigger] url@[j]),
        decreases n - i,
    {
        let c = url.get_char(i);
        if !is_url_char(c) {
            return false;
        }
        i += 1;
    }
    true
}

/// Derive a slug from a title: white-space runs collapse to one hyphen,
/// characters outside `[a-zA-Z0-9-]` are removed, hyphen runs collapse to
/// one, and the result is lower-cased.  This never fails, but a title with
/// no letters or digits yields a slug without any (possibly the empty
/// string), which this library deliberately leaves unguarded.
pub fn title_to_url(title: &str) -> (r: String)
    ensures
        r@ == derive_slug(title@),
{
    let n = title.unicode_len();
    let mut out: Vec<char> = Vec::new();
    let mut i: usize = 0;
    while i < n
        invariant
            i <= n,
            n == title@.len(),
            out@ == derive_slug(title@.take(i as int)),
        decreases n - i,
    {
        let c = title.get_char(i);
        if is_space(c) || c == '-' {
            if !(out.len() > 0 && out[out.len() - 1] == '-') {
                out.push('-');
            }
        } else if is_url_char(c) {
            out.push(to_lower(c));
        }
        proof {
            assert(title@.take(i + 1).drop_last() =~= title@.take(i as int));
            assert(title@.take(i + 1).last() == title@[i as int]);
        }
        i += 1;
    }
    proof {
        assert(title@.take(n as int) =~= title@);
    }
    chars_to_string(&out)
}

/// The slug for a page: a non-empty explicit URL must match
/// `^[a-zA-Z0-9-]+$` and is taken unchanged, else the operation fails with
/// `InvalidSlug`; an empty explicit URL means the slug is derived from the
/// title, which never fails.  No uniqueness check against other pages'
/// slugs is made here or anywhere: callers must not assume emitted slugs
/// are unique.
pub fn derive_or_validate_slug(title: &str, explicit_url: &str) -> (r: Result<String, Error>)
    ensures
        explicit_url@.len() == 0 ==> r is Ok && r->Ok_0@ == derive_slug(title@),
        explicit_url@.len() > 0 && spec_valid_url(explicit_url@) ==> r is Ok && r->Ok_0@
            == explicit_url@,
        explicit_url@.len() > 0 && !spec_valid_url(explicit_url@) ==> r == Err::<String, Error>(
            Error::InvalidSlug,
        ),
{
    if explicit_url.is_empty() {
        Ok(title_to_url(title))
    } else if is_valid_url(explicit_url) {
        Ok(explicit_url.to_owned())
    } else {
        Err(Error::InvalidSlug)
    }
}

} // verus!
