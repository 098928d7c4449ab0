//! The plain-text image: its header, its lines and the order of its rows.

use vstd::prelude::*;
use crate::text::{decimal, push_decimal};
use crate::vec3::color::{pixel_text, push_pixel};
use crate::vec3::Color;

verus! {

/// The three header lines of an image: the format's name, width and height,
/// and the greatest channel level.
pub open spec fn header_text(width: nat, height: nat) -> Seq<char> {
    seq!['P', '3', '\n'] + decimal(width) + seq![' '] + decimal(height) + seq![
        '\n',
        '2',
        '5',
        '5',
    ]
}

/// The lines of a row of pixels, from left to right, a line feed between
/// them.
pub open spec fn scanline_text(colors: Seq<Color>) -> Seq<char>
    decreases colors.len(),
{
    if colors.len() == 0 {
        Seq::empty()
    } else if colors.len() == 1 {
        pixel_text(colors[0])
    } else {
        scanline_text(colors.drop_last()) + seq!['\n'] + pixel_text(colors.last())
    }
}

/// The header of an image of the given size.
pub fn header(width: u64, height: u64) -> (text: String)
    ensures
        text@ == header_text(width as nat, height as nat),
{
    let mut text = String::new();
    text.push('P');
    text.push('3');
    text.push('\n');
    push_decimal(&mut text, width);
    text.push(' ');
    push_decimal(&mut text, height);
    text.push('\n');
    text.push('2');
    text.push('5');
    text.push('5');
    assert(text@ =~= header_text(width as nat, height as nat));
    text
}

/// The text of one row of the image. `colors` holds the row's colours from
/// left to right, gamma-corrected.
pub fn scanline(colors: &Vec<Color>) -> (text: String)
    ensures
        text@ == scanline_text(colors@),
{
    let mut text = String::new();
    let mut i: usize = 0;
    while i < colors.len()
        invariant
            i <= colors.len(),
            text@ == scanline_text(colors@.take(i as int)),
        decreases colors.len() - i,
    {
        if i > 0 {
            text.push('\n');
        }
        push_pixel(&mut text, &colors[i]);
        assert(colors@.take(i + 1).drop_last() =~= colors@.take(i as int));
        assert(text@ =~= scanline_text(colors@.take(i + 1)));
        i += 1;
    }
    assert(colors@.take(i as int) =~= colors@);
    text
}

/// The rows of an image in the order in which they are written: the last
/// row first, the first row last. Row 0 is the bottom of the picture, so the
/// picture is written from the top down.
#[derive(Clone, Copy, Debug)]
pub struct Scanlines {
    height: u64,
    written: u64,
}

impl Scanlines {
    #[verifier::type_invariant]
    spec fn no_row_twice(self) -> bool {
        self.written <= self.height
    }

    /// The number of rows of the image.
    pub closed spec fn height(self) -> nat {
        self.height as nat
    }

    /// The number of rows that were handed out to be written.
    pub closed spec fn written(self) -> nat {
        self.written as nat
    }

    /// The rows of an image of the given height, none written yet.
    pub fn new(height: u64) -> (rows: Scanlines)
        ensures
            rows.height() == height,
            rows.written() == 0,
    {
        Scanlines { height, written: 0 }
    }

    /// The number of rows that are still to be written.
    pub fn remaining(&self) -> (n: u64)
        ensures
            n == self.height() - self.written(),
    {
        proof {
            use_type_invariant(self);
        }
        self.height - self.written
    }

    /// The row to write next, if one is left. After `k` rows of an image of
    /// height `h`, that is row `h - 1 - k`.
    pub fn next_row(&mut self) -> (row: Option<u64>)
        ensures
            final(self).height() == old(self).height(),
            final(self).written() <= final(self).height(),
            old(self).written() == old(self).height() ==> row is None && final(self).written()
                == old(self).written(),
            old(self).written() < old(self).height() ==> row == Some(
                (old(self).height() - 1 - old(self).written()) as u64,
            ) && final(self).written() == old(self).written() + 1,
    {
        proof {
            use_type_invariant(&*self);
        }
        if self.written == self.height {
            None
        } else {
            let row = self.height - 1 - self.written;
            self.written = self.written + 1;
            Some(row)
        }
    }
}

} // verus!
