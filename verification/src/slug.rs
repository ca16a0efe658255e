//! File names of documents: the slug of a title, cut to length, with the
//! extension of the documents.

use vstd::prelude::*;
use vstd::string::*;

verus! {

/// The longest slug that a file name keeps.
pub const MAX_SLUG_LENGTH: usize = 50;

/// Whether `c` may stand in a slug: a small letter, a digit or a hyphen.
pub open spec fn is_slug_char(c: char) -> bool {
    ||| 'a' <= c <= 'z'
    ||| '0' <= c <= '9'
    ||| c == '-'
}

/// Whether `s` holds nothing but what may stand in a slug.
pub open spec fn is_slug(s: Seq<char>) -> bool {
    forall|i: int| 0 <= i < s.len() ==> is_slug_char(#[trigger] s[i])
}

/// The slug that the `slugify` crate makes of a title, with `-` between the
/// words, no stop words and no limit of length.
pub uninterp spec fn slug_of(title: Seq<char>) -> Seq<char>;

/// Calls `slugify::slugify` as the crate's macro does with a text alone: no
/// stop words, the separator `-`, no limit of length. The crate
/// transliterates the title to ASCII, puts it in lower case, and then keeps
/// the letters `a` to `z` and the digits and writes one `-` for each run of
/// anything else, so the result is a slug. Which slug it is stays with the
/// crate.
#[verifier::external_body]
fn slugify_title(title: &str) -> (slug: String)
    ensures
        slug@ == slug_of(title@),
        is_slug(slug@),
{
    slugify::slugify(title, "", "-", None)
}

/// The part of a slug that a file name keeps: its first fifty characters.
pub open spec fn stem_of(slug: Seq<char>) -> Seq<char> {
    if slug.len() > 50 {
        slug.take(50)
    } else {
        slug
    }
}

/// The name of the file for a slug: the stem and the extension.
pub open spec fn file_name_of(slug: Seq<char>) -> Seq<char> {
    stem_of(slug) + seq!['.', 'o', 'r', 'g']
}

/// Whether a text can be the name of one file in any directory: at most
/// fifty characters and the extension, none of them a slash, a backslash,
/// a capital letter or outside ASCII.
pub open spec fn is_safe_file_name(name: Seq<char>) -> bool {
    &&& name.len() <= 54
    &&& forall|i: int|
        0 <= i < name.len() ==> {
            let c = #[trigger] name[i];
            &&& c != '/'
            &&& c != '\\'
            &&& (c as int) < 128
            &&& !('A' <= c <= 'Z')
        }
}

/// The file name of a slug keeps at most fifty characters of it, all of
/// them small letters, digits or hyphens, and is safe as a file name.
pub proof fn lemma_file_name_is_safe(slug: Seq<char>)
    requires
        is_slug(slug),
    ensures
        stem_of(slug).len() <= 50,
        is_slug(stem_of(slug)),
        file_name_of(slug).len() == stem_of(slug).len() + 4,
        is_safe_file_name(file_name_of(slug)),
{
    let stem = stem_of(slug);
    let name = file_name_of(slug);
    assert forall|i: int| 0 <= i < stem.len() implies is_slug_char(#[trigger] stem[i]) by {
        assert(stem[i] == slug[i]);
    }
    assert forall|i: int| 0 <= i < name.len() implies {
        let c = #[trigger] name[i];
        &&& c != '/'
        &&& c != '\\'
        &&& (c as int) < 128
        &&& !('A' <= c <= 'Z')
    } by {
        if i < stem.len() {
            assert(name[i] == stem[i]);
        }
    }
}

/// Two slugs that agree in their first fifty characters get the same file
/// name: the later document replaces the earlier one.
pub proof fn lemma_equal_stems_collide(first: Seq<char>, second: Seq<char>)
    requires
        stem_of(first) == stem_of(second),
    ensures
        file_name_of(first) == file_name_of(second),
{
}

/// The name of the file in which the document with this title is kept.
pub fn file_name(title: &str) -> (name: String)
    ensures
        name@ == file_name_of(slug_of(title@)),
        is_safe_file_name(name@),
{
    let slug = slugify_title(title);
    let name = file_name_for_slug(slug.as_str());
    proof {
        lemma_file_name_is_safe(slug@);
    }
    name
}

/// The name of the file for a slug that is already made.
pub fn file_name_for_slug(slug: &str) -> (name: String)
    ensures
        name@ == file_name_of(slug@),
{
    let stem: &str = if slug.unicode_len() > MAX_SLUG_LENGTH {
        slug.substring_char(0, MAX_SLUG_LENGTH)
    } else {
        slug
    };
    let mut name = stem.to_owned();
    name.append(".org");
    proof {
        reveal_strlit(".org");
        assert(".org"@ =~= seq!['.', 'o', 'r', 'g']);
    }
    name
}

} // verus!
