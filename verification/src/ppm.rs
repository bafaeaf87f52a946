use vstd::prelude::*;

use crate::decimal::{all_digits, decimal, is_digit, law_decimal_notation, push_decimal};

verus! {

/// The header of a plain-text ("P3") portable pixmap of `w` by `h` pixels
/// with channel values up to 255.
pub open spec fn ppm_header(w: nat, h: nat) -> Seq<char> {
    "P3\n"@ + decimal(w) + " "@ + decimal(h) + "\n"@ + "255\n"@
}

/// One pixel of a plain-text pixmap: its three channels on a line of their own.
pub open spec fn ppm_pixel(p: (u8, u8, u8)) -> Seq<char> {
    decimal(p.0 as nat) + " "@ + decimal(p.1 as nat) + " "@ + decimal(p.2 as nat) + "\n"@
}

/// The pixel lines of a plain-text pixmap, in the order of `pixels`.
pub open spec fn ppm_body(pixels: Seq<(u8, u8, u8)>) -> Seq<char>
    decreases pixels.len(),
{
    if pixels.len() == 0 {
        Seq::empty()
    } else {
        ppm_body(pixels.drop_last()) + ppm_pixel(pixels.last())
    }
}

/// The whole plain-text pixmap: header, then one line per pixel.
pub open spec fn ppm_text(w: nat, h: nat, pixels: Seq<(u8, u8, u8)>) -> Seq<char> {
    ppm_header(w, h) + ppm_body(pixels)
}

/// Number of line breaks in `s`.
pub open spec fn newline_count(s: Seq<char>) -> nat
    decreases s.len(),
{
    if s.len() == 0 {
        0
    } else {
        newline_count(s.drop_last()) + if s.last() == '\n' { 1nat } else { 0nat }
    }
}

/// Line breaks of two strings put together add up.
pub proof fn lemma_newline_count_concat(a: Seq<char>, b: Seq<char>)
    ensures
        newline_count(a + b) == newline_count(a) + newline_count(b),
    decreases b.len(),
{
    if b.len() == 0 {
        assert(a + b =~= a);
    } else {
        assert((a + b).drop_last() =~= a + b.drop_last());
        lemma_newline_count_concat(a, b.drop_last());
    }
}

/// A single character is one line break exactly when it is `\n`.
pub proof fn lemma_newline_count_single(c: char)
    ensures
        newline_count(seq![c]) == if c == '\n' { 1nat } else { 0nat },
{
    assert(seq![c].drop_last() =~= Seq::<char>::empty());
    assert(newline_count(Seq::<char>::empty()) == 0);
}

/// A string of digits has no line break.
pub proof fn lemma_digits_no_newline(s: Seq<char>)
    requires
        all_digits(s),
    ensures
        newline_count(s) == 0,
    decreases s.len(),
{
    if s.len() > 0 {
        assert(is_digit(s[s.len() - 1]));
        assert('\n' as int == 10);
        assert(all_digits(s.drop_last())) by {
            assert forall|i: int| 0 <= i < s.drop_last().len() implies is_digit(#[trigger] s.drop_last()[i]) by {
                assert(s.drop_last()[i] == s[i]);
            }
        }
        lemma_digits_no_newline(s.drop_last());
    }
}

/// Each pixel is written as the decimal values of its red, green and blue
/// channels, separated by single spaces, on a line of its own.
pub proof fn law_ppm_pixel_line(p: (u8, u8, u8))
    ensures
        ppm_pixel(p) == decimal(p.0 as nat) + seq![' '] + decimal(p.1 as nat) + seq![' ']
            + decimal(p.2 as nat) + seq!['\n'],
        newline_count(ppm_pixel(p)) == 1,
{
    reveal_strlit(" ");
    reveal_strlit("\n");
    law_decimal_notation(p.0 as nat);
    law_decimal_notation(p.1 as nat);
    law_decimal_notation(p.2 as nat);
    lemma_digits_no_newline(decimal(p.0 as nat));
    lemma_digits_no_newline(decimal(p.1 as nat));
    lemma_digits_no_newline(decimal(p.2 as nat));
    let sp = seq![' '];
    let nl = seq!['\n'];
    assert(' ' as int == 32 && '\n' as int == 10);
    lemma_newline_count_single(' ');
    lemma_newline_count_single('\n');
    let (d0, d1, d2) = (decimal(p.0 as nat), decimal(p.1 as nat), decimal(p.2 as nat));
    lemma_newline_count_concat(d0, sp);
    lemma_newline_count_concat(d0 + sp, d1);
    lemma_newline_count_concat(d0 + sp + d1, sp);
    lemma_newline_count_concat(d0 + sp + d1 + sp, d2);
    lemma_newline_count_concat(d0 + sp + d1 + sp + d2, nl);
}

/// The header states the format `P3`, then the width and the height in
/// decimal separated by a space, then the maximum channel value 255, each
/// on a line of its own.
pub proof fn law_ppm_header_lines(w: nat, h: nat)
    ensures
        ppm_header(w, h) == seq!['P', '3', '\n'] + decimal(w) + seq![' '] + decimal(h)
            + seq!['\n', '2', '5', '5', '\n'],
        newline_count(ppm_header(w, h)) == 3,
{
    reveal_strlit("P3\n");
    reveal_strlit(" ");
    reveal_strlit("\n");
    reveal_strlit("255\n");
    law_decimal_notation(w);
    law_decimal_notation(h);
    lemma_digits_no_newline(decimal(w));
    lemma_digits_no_newline(decimal(h));
    let a = seq!['P', '3', '\n'];
    let sp = seq![' '];
    let b = seq!['\n', '2', '5', '5', '\n'];
    assert('P' as int == 80 && '3' as int == 51 && '\n' as int == 10);
    assert(' ' as int == 32 && '2' as int == 50 && '5' as int == 53);
    lemma_newline_count_single('P');
    lemma_newline_count_single('3');
    lemma_newline_count_single('\n');
    lemma_newline_count_single(' ');
    lemma_newline_count_single('2');
    lemma_newline_count_single('5');
    assert(newline_count(a) == 1) by {
        assert(a =~= seq!['P'] + seq!['3'] + seq!['\n']);
        lemma_newline_count_concat(seq!['P'], seq!['3']);
        lemma_newline_count_concat(seq!['P'] + seq!['3'], seq!['\n']);
    }
    assert(newline_count(b) == 2) by {
        let n1 = seq!['\n'];
        let t = seq!['2'];
        let f = seq!['5'];
        lemma_newline_count_concat(n1, t);
        lemma_newline_count_concat(n1 + t, f);
        lemma_newline_count_concat(n1 + t + f, f);
        lemma_newline_count_concat(n1 + t + f + f, n1);
        assert(b =~= n1 + t + f + f + n1);
    }
    assert(ppm_header(w, h) =~= a + decimal(w) + sp + decimal(h) + b);
    lemma_newline_count_concat(a, decimal(w));
    lemma_newline_count_concat(a + decimal(w), sp);
    lemma_newline_count_concat(a + decimal(w) + sp, decimal(h));
    lemma_newline_count_concat(a + decimal(w) + sp + decimal(h), b);
}

/// Writing two runs of pixels one after the other gives the lines of the
/// first run followed by the lines of the second.
pub proof fn law_ppm_body_concat(a: Seq<(u8, u8, u8)>, b: Seq<(u8, u8, u8)>)
    ensures
        ppm_body(a + b) == ppm_body(a) + ppm_body(b),
    decreases b.len(),
{
    if b.len() == 0 {
        assert(a + b =~= a);
        assert(ppm_body(a) + ppm_body(b) =~= ppm_body(a));
    } else {
        assert((a + b).drop_last() =~= a + b.drop_last());
        law_ppm_body_concat(a, b.drop_last());
        assert(ppm_body(a + b) =~= ppm_body(a) + ppm_body(b));
    }
}

/// A single pixel is written as its own line.
pub proof fn law_ppm_body_single(p: (u8, u8, u8))
    ensures
        ppm_body(seq![p]) == ppm_pixel(p),
{
    assert(seq![p].drop_last() =~= Seq::<(u8, u8, u8)>::empty());
    assert(ppm_body(Seq::<(u8, u8, u8)>::empty()) + ppm_pixel(p) =~= ppm_pixel(p));
}

/// No pixel is dropped: whatever the size of the image, the text is the
/// header, then the lines of the pixels before `i`, then the line of pixel
/// `i`, then the lines of the pixels after it.
pub proof fn law_ppm_pixel_at(w: nat, h: nat, pixels: Seq<(u8, u8, u8)>, i: int)
    requires
        0 <= i < pixels.len(),
    ensures
        ppm_text(w, h, pixels) == ppm_header(w, h) + ppm_body(pixels.take(i)) + ppm_pixel(pixels[i])
            + ppm_body(pixels.skip(i + 1)),
{
    let (before, at, after) = (pixels.take(i), seq![pixels[i]], pixels.skip(i + 1));
    assert(pixels =~= before + at + after);
    law_ppm_body_concat(before + at, after);
    law_ppm_body_concat(before, at);
    law_ppm_body_single(pixels[i]);
    assert(ppm_text(w, h, pixels) =~= ppm_header(w, h) + ppm_body(before) + ppm_pixel(pixels[i])
        + ppm_body(after));
}

/// The text has exactly three header lines and one line per pixel.
pub proof fn law_ppm_line_count(w: nat, h: nat, pixels: Seq<(u8, u8, u8)>)
    ensures
        newline_count(ppm_text(w, h, pixels)) == 3 + pixels.len(),
    decreases pixels.len(),
{
    law_ppm_header_lines(w, h);
    if pixels.len() == 0 {
        assert(ppm_text(w, h, pixels) =~= ppm_header(w, h));
    } else {
        law_ppm_line_count(w, h, pixels.drop_last());
        law_ppm_pixel_line(pixels.last());
        assert(ppm_text(w, h, pixels) =~= ppm_text(w, h, pixels.drop_last()) + ppm_pixel(pixels.last()));
        lemma_newline_count_concat(ppm_text(w, h, pixels.drop_last()), ppm_pixel(pixels.last()));
    }
}

/// Writes an image as a plain-text ("P3") portable pixmap: a header that
/// states the size `w` by `h` and the maximum value 255, then one line
/// `r g b` per pixel, in order.
pub fn encode_ppm(w: usize, h: usize, pixels: &[(u8, u8, u8)]) -> (text: String)
    ensures
        text@ == ppm_text(w as nat, h as nat, pixels@),
{
    let space = " ";
    let newline = "\n";
    proof {
        reveal_strlit(" ");
        reveal_strlit("\n");
    }
    let mut text = String::from_str("P3\n");
    push_decimal(&mut text, w as u64);
    text.append(space);
    push_decimal(&mut text, h as u64);
    text.append(newline);
    text.append("255\n");
    assert(text@ =~= ppm_header(w as nat, h as nat) + ppm_body(pixels@.take(0)));
    let mut i: usize = 0;
    while i < pixels.len()
        invariant
            i <= pixels.len(),
            space@ == " "@,
            newline@ == "\n"@,
            text@ == ppm_header(w as nat, h as nat) + ppm_body(pixels@.take(i as int)),
        decreases pixels.len() - i,
    {
        let (r, g, b) = pixels[i];
        push_decimal(&mut text, r as u64);
        text.append(space);
        push_decimal(&mut text, g as u64);
        text.append(space);
        push_decimal(&mut text, b as u64);
        text.append(newline);
        assert(pixels@.take(i + 1).drop_last() =~= pixels@.take(i as int));
        i = i + 1;
        assert(text@ =~= ppm_header(w as nat, h as nat) + ppm_body(pixels@.take(i as int)));
    }
    assert(pixels@.take(i as int) =~= pixels@);
    text
}

} // verus!
