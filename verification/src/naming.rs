//! The names of the files that a conversion writes for a page.

use crate::decimal::{
    decimal, lemma_decimal_value, lemma_zero_padded_value, push_decimal, push_zero_padded,
    zero_padded,
};
use vstd::prelude::*;
use vstd::string::*;

verus! {

/// What stands in a page's file name before the page number: the directory,
/// a slash, the name of the source file, a hyphen.
pub open spec fn name_prefix(directory: Seq<char>, filename: Seq<char>) -> Seq<char> {
    directory + seq!['/'] + filename + seq!['-']
}

/// The name of a page's file: `<directory>/<filename>-<page>-<timestamp><extension>`,
/// the page number padded with zeros to `width` digits.
pub open spec fn page_name(
    directory: Seq<char>,
    filename: Seq<char>,
    page: nat,
    width: nat,
    timestamp: nat,
    extension: Seq<char>,
) -> Seq<char> {
    name_prefix(directory, filename) + zero_padded(page, width) + seq!['-'] + decimal(timestamp)
        + extension
}

/// The extension of an image file.
pub open spec fn png_extension() -> Seq<char> {
    seq!['.', 'p', 'n', 'g']
}

/// The extension of the transient file that a page is rendered into.
pub open spec fn tmp_extension() -> Seq<char> {
    seq!['.', 't', 'm', 'p']
}

/// The name of the image file of a page.
pub open spec fn output_name(
    directory: Seq<char>,
    filename: Seq<char>,
    page: nat,
    width: nat,
    timestamp: nat,
) -> Seq<char> {
    page_name(directory, filename, page, width, timestamp, png_extension())
}

/// The name of the transient file of a page.
pub open spec fn temp_name(
    directory: Seq<char>,
    filename: Seq<char>,
    page: nat,
    width: nat,
    timestamp: nat,
) -> Seq<char> {
    page_name(directory, filename, page, width, timestamp, tmp_extension())
}

/// Two pages of one conversion never share a file name: with the same
/// directory, source file, width, timestamp and extension, different page
/// numbers give different names.
pub proof fn lemma_page_names_distinct(
    directory: Seq<char>,
    filename: Seq<char>,
    first: nat,
    second: nat,
    width: nat,
    timestamp: nat,
    extension: Seq<char>,
)
    requires
        first != second,
    ensures
        page_name(directory, filename, first, width, timestamp, extension) != page_name(
            directory,
            filename,
            second,
            width,
            timestamp,
            extension,
        ),
{
    let prefix = name_prefix(directory, filename);
    let a = zero_padded(first, width);
    let b = zero_padded(second, width);
    let rest = seq!['-'] + decimal(timestamp) + extension;
    let x = page_name(directory, filename, first, width, timestamp, extension);
    let y = page_name(directory, filename, second, width, timestamp, extension);
    assert(x =~= prefix + a + rest);
    assert(y =~= prefix + b + rest);
    if x == y {
        assert(x.len() == prefix.len() + a.len() + rest.len());
        assert(y.len() == prefix.len() + b.len() + rest.len());
        assert(a.len() == b.len());
        assert(a =~= x.subrange(prefix.len() as int, (prefix.len() + a.len()) as int));
        assert(b =~= y.subrange(prefix.len() as int, (prefix.len() + b.len()) as int));
        lemma_zero_padded_value(first, width);
        lemma_zero_padded_value(second, width);
        assert(false);
    }
}

/// Page number and timestamp together tell file names apart: where the two
/// page numbers are written with equally many characters, names that differ
/// in the page number or in the timestamp are different names.
pub proof fn lemma_page_names_injective(
    directory: Seq<char>,
    filename: Seq<char>,
    first: nat,
    first_timestamp: nat,
    second: nat,
    second_timestamp: nat,
    width: nat,
    extension: Seq<char>,
)
    requires
        zero_padded(first, width).len() == zero_padded(second, width).len(),
        first != second || first_timestamp != second_timestamp,
    ensures
        page_name(directory, filename, first, width, first_timestamp, extension) != page_name(
            directory,
            filename,
            second,
            width,
            second_timestamp,
            extension,
        ),
{
    let head = name_prefix(directory, filename).len() as int;
    let a = zero_padded(first, width);
    let b = zero_padded(second, width);
    let s = decimal(first_timestamp);
    let t = decimal(second_timestamp);
    let x = page_name(directory, filename, first, width, first_timestamp, extension);
    let y = page_name(directory, filename, second, width, second_timestamp, extension);
    if x == y {
        let stamp = head + a.len() + 1;
        assert(x.len() == stamp + s.len() + extension.len());
        assert(y.len() == stamp + t.len() + extension.len());
        assert(a =~= x.subrange(head, head + a.len()));
        assert(b =~= y.subrange(head, head + b.len()));
        assert(s =~= x.subrange(stamp, stamp + s.len()));
        assert(t =~= y.subrange(stamp, stamp + t.len()));
        lemma_zero_padded_value(first, width);
        lemma_zero_padded_value(second, width);
        lemma_decimal_value(first_timestamp);
        lemma_decimal_value(second_timestamp);
        assert(false);
    }
}

/// The image file and the transient file of a page have different names, and
/// so have those of any two pages.
pub proof fn lemma_output_is_no_temp(
    directory: Seq<char>,
    filename: Seq<char>,
    first: nat,
    second: nat,
    width: nat,
    timestamp: nat,
)
    ensures
        output_name(directory, filename, first, width, timestamp) != temp_name(
            directory,
            filename,
            second,
            width,
            timestamp,
        ),
{
    let x = output_name(directory, filename, first, width, timestamp);
    let y = temp_name(directory, filename, second, width, timestamp);
    assert(x.last() == 'g');
    assert(y.last() == 'p');
}

/// Builds the name of a page's file.
pub fn page_path(
    directory: &str,
    filename: &str,
    page: u32,
    width: usize,
    timestamp: u128,
    extension: &str,
) -> (path: String)
    ensures
        path@ == page_name(
            directory@,
            filename@,
            page as nat,
            width as nat,
            timestamp as nat,
            extension@,
        ),
{
    proof {
        reveal_strlit("/");
        reveal_strlit("-");
    }
    let mut path = String::new();
    path.append(directory);
    path.append("/");
    path.append(filename);
    path.append("-");
    assert(path@ =~= name_prefix(directory@, filename@));
    push_zero_padded(&mut path, page, width);
    path.append("-");
    push_decimal(&mut path, timestamp);
    path.append(extension);
    assert(path@ =~= page_name(
        directory@,
        filename@,
        page as nat,
        width as nat,
        timestamp as nat,
        extension@,
    ));
    path
}

} // verus!
