//! Naming rules: the deterministic derivation of a storage field name and a
//! collection name from a component type name.
//!
//! A word-capitalized type name becomes a lower, underscore-separated field
//! name (a boundary is inserted before every interior uppercase letter), and
//! the collection name pluralizes the field name: a trailing "y" becomes
//! "ies", anything else gets an "s" appended.

use vstd::prelude::*;

verus! {

/// Whether `c` is an ASCII uppercase letter.
pub open spec fn is_ascii_upper(c: char) -> bool {
    65 <= c as u32 <= 90
}

/// `c` lowered: an ASCII uppercase letter moved down into the lowercase
/// range, any other character unchanged.
pub open spec fn lower_char(c: char) -> char {
    if is_ascii_upper(c) {
        ((c as u32) + 32) as char
    } else {
        c
    }
}

/// The lower, underscore-separated form of a word-capitalized name: every
/// character lowered, with an underscore inserted before each uppercase
/// letter that is not the first character.
pub open spec fn snake_of(s: Seq<char>) -> Seq<char>
    decreases s.len(),
{
    if s.len() == 0 {
        Seq::empty()
    } else if is_ascii_upper(s.last()) && s.len() > 1 {
        snake_of(s.drop_last()).push('_').push(lower_char(s.last()))
    } else {
        snake_of(s.drop_last()).push(lower_char(s.last()))
    }
}

/// The plural of a field name: a trailing 'y' is replaced by "ies",
/// otherwise an 's' is appended.
pub open spec fn plural_of(s: Seq<char>) -> Seq<char> {
    if s.len() > 0 && s.last() == 'y' {
        s.drop_last().push('i').push('e').push('s')
    } else {
        s.push('s')
    }
}

/// The collection name derived from a component type name: the plural of
/// its field name.
pub open spec fn collection_of(s: Seq<char>) -> Seq<char> {
    plural_of(snake_of(s))
}

/// Relies on String::push: appends the given character to the end of the
/// string.
#[verifier::external_body]
fn push_char(s: &mut String, c: char)
    ensures
        final(s)@ == old(s)@.push(c),
{
    s.push(c);
}

/// The first `k` characters of `s`, as a fresh string.
fn prefix_string(s: &str, k: usize) -> (r: String)
    requires
        k <= s@.len(),
    ensures
        r@ == s@.take(k as int),
{
    let mut r = String::new();
    let mut i: usize = 0;
    while i < k
        invariant
            i <= k <= s@.len(),
            r@ == s@.take(i as int),
        decreases k - i,
    {
        let c = s.get_char(i);
        push_char(&mut r, c);
        proof {
            assert(s@.take(i + 1).drop_last() =~= s@.take(i as int));
            assert(s@.take(i + 1) =~= s@.take(i as int).push(s@[i as int]));
        }
        i += 1;
    }
    r
}

/// The field name derived from a component type name: lower,
/// underscore-separated words.
pub fn camel_to_snake_case(camel_case: &str) -> (r: String)
    ensures
        r@ == snake_of(camel_case@),
{
    let n = camel_case.unicode_len();
    let mut snake_case = String::new();
    let mut i: usize = 0;
    while i < n
        invariant
            i <= n,
            n == camel_case@.len(),
            snake_case@ == snake_of(camel_case@.take(i as int)),
        decreases n - i,
    {
        let c = camel_case.get_char(i);
        let code = c as u32;
        let is_upper = 65 <= code && code <= 90;
        if is_upper && i != 0 {
            push_char(&mut snake_case, '_');
        }
        let lowered = if is_upper {
            ((code + 32) as u8) as char
        } else {
            c
        };
        push_char(&mut snake_case, lowered);
        proof {
            assert(camel_case@.take(i + 1).drop_last() =~= camel_case@.take(i as int));
            assert(camel_case@.take(i + 1).last() == camel_case@[i as int]);
        }
        i += 1;
    }
    proof {
        assert(camel_case@.take(n as int) =~= camel_case@);
    }
    snake_case
}

/// The plural form of a field name.
pub fn pluralize(s: &str) -> (r: String)
    ensures
        r@ == plural_of(s@),
{
    let n = s.unicode_len();
    if n > 0 && s.get_char(n - 1) == 'y' {
        let mut p = prefix_string(s, n - 1);
        proof {
            assert(s@.take(n - 1) =~= s@.drop_last());
        }
        push_char(&mut p, 'i');
        push_char(&mut p, 'e');
        push_char(&mut p, 's');
        p
    } else {
        let mut p = prefix_string(s, n);
        proof {
            assert(s@.take(n as int) =~= s@);
        }
        push_char(&mut p, 's');
        p
    }
}

/// The collection name derived from a component type name.
pub fn type_to_collection_name(name: &str) -> (r: String)
    ensures
        r@ == collection_of(name@),
{
    let field = camel_to_snake_case(name);
    pluralize(field.as_str())
}

} // verus!
