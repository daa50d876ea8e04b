use vstd::prelude::*;

use crate::machine::{Chip8, HEIGHT, NPIXELS, WIDTH};

verus! {

/// The character that shows a pixel: a space when off, `#` when on.
pub open spec fn pixel_char(v: u8) -> u8 {
    if v == 0 {
        0x20
    } else {
        0x23
    }
}

/// `+`, a dash per column, `+`, newline.
pub open spec fn border_line() -> Seq<u8> {
    seq![0x2Bu8] + Seq::new(WIDTH as nat, |c: int| 0x2Du8) + seq![0x2Bu8, 0x0Au8]
}

/// `|`, the pixels of row `r`, `|`, newline.
pub open spec fn row_line(g: Seq<u8>, r: int) -> Seq<u8> {
    seq![0x7Cu8] + Seq::new(WIDTH as nat, |c: int| pixel_char(g[r * WIDTH as int + c])) + seq![
        0x7Cu8,
        0x0Au8,
    ]
}

/// The lines of the first `k` rows.
pub open spec fn rows_text(g: Seq<u8>, k: nat) -> Seq<u8>
    decreases k,
{
    if k == 0 {
        Seq::empty()
    } else {
        rows_text(g, (k - 1) as nat) + row_line(g, k - 1)
    }
}

/// The frame buffer `g` as framed ASCII art.
pub open spec fn screen_text_of(g: Seq<u8>) -> Seq<u8> {
    border_line() + rows_text(g, HEIGHT as nat) + border_line()
}

/// Appends `border_line()`.
fn push_border(out: &mut Vec<u8>)
    ensures
        final(out)@ == old(out)@ + border_line(),
{
    let ghost start = out@;
    out.push(0x2B);
    let mut c: usize = 0;
    while c < WIDTH
        invariant
            c <= WIDTH,
            out@ == start + seq![0x2Bu8] + Seq::new(c as nat, |i: int| 0x2Du8),
        decreases WIDTH - c,
    {
        out.push(0x2D);
        c = c + 1;
        assert(out@ =~= start + seq![0x2Bu8] + Seq::new(c as nat, |i: int| 0x2Du8));
    }
    out.push(0x2B);
    out.push(0x0A);
    assert(out@ =~= start + border_line());
}

/// Appends `row_line(g, r)`.
fn push_row(out: &mut Vec<u8>, g: &[u8; NPIXELS], r: usize)
    requires
        r < HEIGHT,
    ensures
        final(out)@ == old(out)@ + row_line(g@, r as int),
{
    let ghost start = out@;
    out.push(0x7C);
    let mut c: usize = 0;
    while c < WIDTH
        invariant
            r < HEIGHT,
            c <= WIDTH,
            out@ == start + seq![0x7Cu8] + Seq::new(
                c as nat,
                |i: int| pixel_char(g@[r * WIDTH as int + i]),
            ),
        decreases WIDTH - c,
    {
        let v = g[r * WIDTH + c];
        out.push(if v == 0 { 0x20 } else { 0x23 });
        c = c + 1;
        assert(out@ =~= start + seq![0x7Cu8] + Seq::new(
            c as nat,
            |i: int| pixel_char(g@[r * WIDTH as int + i]),
        ));
    }
    out.push(0x7C);
    out.push(0x0A);
    assert(out@ =~= start + row_line(g@, r as int));
}

impl Chip8 {
    /// The frame buffer as ASCII art for diagnostics: a border line, one line
    /// per row with a space for each pixel that is off and `#` for each that
    /// is on, and a border line.
    pub fn screen_text(&self) -> (t: Vec<u8>)
        ensures
            t@ == screen_text_of(self.graphics@),
    {
        let mut out: Vec<u8> = Vec::new();
        push_border(&mut out);
        let mut r: usize = 0;
        while r < HEIGHT
            invariant
                r <= HEIGHT,
                out@ == border_line() + rows_text(self.graphics@, r as nat),
            decreases HEIGHT - r,
        {
            push_row(&mut out, &self.graphics, r);
            r = r + 1;
            assert(out@ =~= border_line() + rows_text(self.graphics@, r as nat));
        }
        push_border(&mut out);
        out
    }
}

} // verus!
