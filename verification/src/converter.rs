//! The handle of an opened document, and the plan of its conversion.

use crate::decimal::{decimal, decimal_width, lemma_zero_padded_len, zero_padded};
use crate::naming::{
    lemma_page_names_distinct, lemma_page_names_injective, output_name, page_path, png_extension, temp_name, tmp_extension,
};
use vstd::prelude::*;
use vstd::string::*;

verus! {

/// Why a document that was opened cannot be converted.
#[derive(Debug, Clone, Copy, PartialEq, Eq, Structural)]
pub enum OpenError {
    /// The path of the document has no final component to name the images by.
    FileNameUnavailable,
}

impl OpenError {
    /// The diagnostic text of the error.
    pub fn message(&self) -> (text: String)
        ensures
            text@ == "file name unavailable."@,
    {
        String::from_str("file name unavailable.")
    }
}

/// What a `PdfToImage` stands for.
pub struct PdfToImageView {
    /// The final component of the path that the document was opened by.
    pub filename: Seq<char>,
    /// The number of pages that the document reported.
    pub pages: int,
    /// Milliseconds since the Unix epoch at which the document was opened.
    pub timestamp: nat,
}

impl PdfToImageView {
    /// The number of pages that a conversion writes: a count below zero
    /// stands for no page.
    pub open spec fn page_count(&self) -> nat {
        if self.pages > 0 {
            self.pages as nat
        } else {
            0
        }
    }

    /// The number of characters of every page number in the file names: the
    /// number of digits of the page count.
    pub open spec fn page_width(&self) -> nat {
        decimal(self.page_count()).len()
    }

    /// The name of the image file of the page at `index`, counted from 0; the
    /// name holds the page number counted from 1.
    pub open spec fn output_at(&self, directory: Seq<char>, index: int) -> Seq<char> {
        output_name(
            directory,
            self.filename,
            (index + 1) as nat,
            self.page_width(),
            self.timestamp,
        )
    }

    /// The name of the transient file of the page at `index`, counted from 0.
    pub open spec fn temp_at(&self, directory: Seq<char>, index: int) -> Seq<char> {
        temp_name(
            directory,
            self.filename,
            (index + 1) as nat,
            self.page_width(),
            self.timestamp,
        )
    }
}

/// An opened document: the name of its file, its number of pages, and the
/// time at which it was opened, which tells the images of one conversion
/// from those of another of the same file.
pub struct PdfToImage {
    filename: String,
    pages: i32,
    timestamp: u128,
}

impl View for PdfToImage {
    type V = PdfToImageView;

    closed spec fn view(&self) -> PdfToImageView {
        PdfToImageView {
            filename: self.filename@,
            pages: self.pages as int,
            timestamp: self.timestamp as nat,
        }
    }
}

/// The final component of a path as `std::path::Path::file_name` finds it,
/// by the path syntax of the platform that the library is built for; `None`
/// for a path that has none, such as a root or one that ends in `..`.
pub uninterp spec fn path_file_name(path: Seq<char>) -> Option<Seq<char>>;

/// Calls `std::path::Path::file_name` on `path` and hands the final
/// component back as a `String`. The contract only gives the result its
/// name, `path_file_name`: nothing is claimed of which part of the path it
/// is.
#[verifier::external_body]
fn final_component(path: &str) -> (name: Option<String>)
    ensures
        match name {
            Some(found) => path_file_name(path@) == Some(found@),
            None => path_file_name(path@) is None,
        },
{
    Some(std::path::Path::new(path).file_name()?.to_str()?.to_string())
}

impl PdfToImage {
    /// The handle of a document whose path has `file_name` as its final
    /// component, if it has one.
    pub fn from_parts(file_name: Option<String>, pages: i32, timestamp: u128) -> (handle: Result<
        PdfToImage,
        OpenError,
    >)
        ensures
            match file_name {
                Some(name) => handle is Ok && handle->Ok_0@ == (PdfToImageView {
                    filename: name@,
                    pages: pages as int,
                    timestamp: timestamp as nat,
                }),
                None => handle == Err::<PdfToImage, OpenError>(OpenError::FileNameUnavailable),
            },
    {
        match file_name {
            Some(name) => Ok(PdfToImage { filename: name, pages, timestamp }),
            None => Err(OpenError::FileNameUnavailable),
        }
    }

    /// The handle of the document that was opened by `pdf_path`, with the
    /// number of pages it reported and the time of opening in milliseconds
    /// since the Unix epoch. The images are named by the final component of
    /// `pdf_path`; a path without one is refused.
    pub fn new(pdf_path: String, pages: i32, timestamp: u128) -> (handle: Result<
        PdfToImage,
        OpenError,
    >)
        ensures
            match path_file_name(pdf_path@) {
                Some(name) => handle is Ok && handle->Ok_0@ == (PdfToImageView {
                    filename: name,
                    pages: pages as int,
                    timestamp: timestamp as nat,
                }),
                None => handle == Err::<PdfToImage, OpenError>(OpenError::FileNameUnavailable),
            },
    {
        let file_name = final_component(pdf_path.as_str());
        PdfToImage::from_parts(file_name, pages, timestamp)
    }

    /// The name of the file that the images are named by.
    pub fn filename(&self) -> (name: &str)
        ensures
            name@ == self@.filename,
    {
        self.filename.as_str()
    }

    /// The number of pages that the document reported.
    pub fn pages(&self) -> (pages: i32)
        ensures
            pages == self@.pages,
    {
        self.pages
    }

    /// The time of opening, in milliseconds since the Unix epoch.
    pub fn timestamp(&self) -> (timestamp: u128)
        ensures
            timestamp == self@.timestamp,
    {
        self.timestamp
    }

    fn page_width(&self) -> (width: usize)
        ensures
            width == self@.page_width(),
    {
        if self.pages > 0 {
            decimal_width(self.pages as u32)
        } else {
            decimal_width(0)
        }
    }

    /// The name of the image file of the page at `index`, counted from 0, in
    /// `directory`; `None` where the document has no such page.
    pub fn output_path(&self, directory: &str, index: i32) -> (path: Option<String>)
        ensures
            0 <= index < self@.pages ==> path is Some && path->Some_0@ == self@.output_at(
                directory@,
                index as int,
            ),
            !(0 <= index < self@.pages) ==> path is None,
    {
        proof {
            reveal_strlit(".png");
        }
        if 0 <= index && index < self.pages {
            let width = self.page_width();
            let extension = ".png";
            assert(extension@ =~= png_extension());
            Some(
                page_path(
                    directory,
                    self.filename.as_str(),
                    (index + 1) as u32,
                    width,
                    self.timestamp,
                    extension,
                ),
            )
        } else {
            None
        }
    }

    /// The name of the transient file that the page at `index`, counted from
    /// 0, is rendered into, in `directory`; `None` where the document has no
    /// such page.
    pub fn temp_path(&self, directory: &str, index: i32) -> (path: Option<String>)
        ensures
            0 <= index < self@.pages ==> path is Some && path->Some_0@ == self@.temp_at(
                directory@,
                index as int,
            ),
            !(0 <= index < self@.pages) ==> path is None,
    {
        proof {
            reveal_strlit(".tmp");
        }
        if 0 <= index && index < self.pages {
            let width = self.page_width();
            let extension = ".tmp";
            assert(extension@ =~= tmp_extension());
            Some(
                page_path(
                    directory,
                    self.filename.as_str(),
                    (index + 1) as u32,
                    width,
                    self.timestamp,
                    extension,
                ),
            )
        } else {
            None
        }
    }

    /// The names of the image files that a conversion into `directory`
    /// writes, in the order of the pages: one for each page, no two alike,
    /// every page number written with as many digits as the page count has.
    pub fn to_image(&self, directory: &str) -> (paths: Vec<String>)
        ensures
            paths@.len() == self@.page_count(),
            forall|i: int|
                0 <= i < paths@.len() ==> (#[trigger] paths@[i])@ == self@.output_at(directory@, i),
            forall|i: int, j: int|
                0 <= i < j < paths@.len() ==> (#[trigger] paths@[i])@ != (#[trigger] paths@[j])@,
    {
        let mut paths: Vec<String> = Vec::new();
        let mut index: i32 = 0;
        while index < self.pages
            invariant
                0 <= index,
                index <= self@.page_count(),
                paths@.len() == index,
                forall|i: int|
                    0 <= i < paths@.len() ==> (#[trigger] paths@[i])@ == self@.output_at(
                        directory@,
                        i,
                    ),
            decreases self@.pages - index,
        {
            match self.output_path(directory, index) {
                Some(path) => {
                    paths.push(path);
                },
                None => {},
            }
            index = index + 1;
        }
        proof {
            assert forall|i: int, j: int| 0 <= i < j < paths@.len() implies (#[trigger] paths@[i])@
                != (#[trigger] paths@[j])@ by {
                lemma_page_names_distinct(
                    directory@,
                    self@.filename,
                    (i + 1) as nat,
                    (j + 1) as nat,
                    self@.page_width(),
                    self@.timestamp,
                    png_extension(),
                );
            }
        }
        paths
    }
}

/// Two openings of one document at different times never name an image
/// alike, whichever pages are compared.
pub proof fn lemma_conversions_distinct(
    earlier: PdfToImageView,
    later: PdfToImageView,
    directory: Seq<char>,
    i: int,
    j: int,
)
    requires
        earlier.filename == later.filename,
        earlier.pages == later.pages,
        earlier.timestamp != later.timestamp,
        0 <= i < earlier.pages,
        0 <= j < later.pages,
    ensures
        earlier.output_at(directory, i) != later.output_at(directory, j),
{
    lemma_page_numbers_aligned(earlier, i);
    lemma_page_numbers_aligned(later, j);
    lemma_page_names_injective(
        directory,
        earlier.filename,
        (i + 1) as nat,
        earlier.timestamp,
        (j + 1) as nat,
        later.timestamp,
        earlier.page_width(),
        png_extension(),
    );
}

/// In the names of one conversion every page number has the same number of
/// characters: that of the page count.
pub proof fn lemma_page_numbers_aligned(handle: PdfToImageView, index: int)
    requires
        0 <= index < handle.pages,
    ensures
        zero_padded((index + 1) as nat, handle.page_width()).len() == handle.page_width(),
{
    lemma_zero_padded_len((index + 1) as nat, handle.page_count());
}

} // verus!
