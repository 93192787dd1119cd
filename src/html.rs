use vstd::prelude::*;
use vstd::string::*;

verus! {

/// The decimal digit `d` as a character.
pub open spec fn digit_char(d: nat) -> char {
    if d == 0 {
        '0'
    } else if d == 1 {
        '1'
    } else if d == 2 {
        '2'
    } else if d == 3 {
        '3'
    } else if d == 4 {
        '4'
    } else if d == 5 {
        '5'
    } else if d == 6 {
        '6'
    } else if d == 7 {
        '7'
    } else if d == 8 {
        '8'
    } else {
        '9'
    }
}

/// `n` written in decimal, without leading zeros.
pub open spec fn decimal(n: nat) -> Seq<char>
    decreases n,
{
    if n < 10 {
        seq![digit_char(n)]
    } else {
        decimal(n / 10).push(digit_char(n % 10))
    }
}

/// `n / d` rounded to the nearest integer, halves rounded up.
pub open spec fn rounded_div(n: nat, d: nat) -> nat
    recommends
        d > 0,
{
    if n % d >= d - d / 2 {
        n / d + 1
    } else {
        n / d
    }
}

/// `h` hundredths written with two decimals (`1234` is `12.34`).
pub open spec fn hundredths(h: nat) -> Seq<char> {
    decimal(h / 100) + seq!['.', digit_char((h % 100) / 10), digit_char(h % 10)]
}

/// The human-readable size: bytes below a thousand, else kilo-, mega- or
/// gigabytes (powers of 1000) with two decimals.
pub open spec fn size_text(n: u64) -> Seq<char> {
    if n < 1000 {
        decimal(n as nat) + seq![' ', 'B']
    } else if n < 1_000_000 {
        hundredths(rounded_div(n as nat, 10)) + seq![' ', 'K', 'B']
    } else if n < 1_000_000_000 {
        hundredths(rounded_div(n as nat, 10_000)) + seq![' ', 'M', 'B']
    } else {
        hundredths(rounded_div(n as nat, 10_000_000)) + seq![' ', 'G', 'B']
    }
}

/// Relies on String::push: the character is added at the end.
#[verifier::external_body]
pub(crate) fn push_char(s: &mut String, c: char)
    ensures
        final(s)@ == old(s)@.push(c),
{
    s.push(c)
}

fn digit_of(d: u64) -> (c: char)
    requires
        d < 10,
    ensures
        c == digit_char(d as nat),
{
    match d {
        0 => '0',
        1 => '1',
        2 => '2',
        3 => '3',
        4 => '4',
        5 => '5',
        6 => '6',
        7 => '7',
        8 => '8',
        _ => '9',
    }
}

/// Appends `n` in decimal to `s`.
pub fn push_decimal(s: &mut String, n: u64)
    ensures
        final(s)@ == old(s)@ + decimal(n as nat),
    decreases n,
{
    if n < 10 {
        push_char(s, digit_of(n));
        assert(old(s)@.push(digit_char(n as nat)) =~= old(s)@ + seq![digit_char(n as nat)]);
    } else {
        push_decimal(s, n / 10);
        push_char(s, digit_of(n % 10));
        assert(final(s)@ =~= old(s)@ + decimal(n as nat));
    }
}

fn push_hundredths(s: &mut String, h: u64)
    ensures
        final(s)@ == old(s)@ + hundredths(h as nat),
{
    push_decimal(s, h / 100);
    push_char(s, '.');
    push_char(s, digit_of((h % 100) / 10));
    push_char(s, digit_of(h % 10));
    assert(final(s)@ =~= old(s)@ + hundredths(h as nat));
}

fn div_rounded(n: u64, d: u64) -> (r: u64)
    requires
        d >= 2,
    ensures
        r == rounded_div(n as nat, d as nat),
{
    proof {
        assert(n / d <= n / 2) by (nonlinear_arith)
            requires
                d >= 2,
        ;
    }
    if n % d >= d - d / 2 {
        n / d + 1
    } else {
        n / d
    }
}

fn push_unit(s: &mut String, c: char)
    ensures
        final(s)@ == old(s)@ + seq![' ', c, 'B'],
{
    push_char(s, ' ');
    push_char(s, c);
    push_char(s, 'B');
    assert(final(s)@ =~= old(s)@ + seq![' ', c, 'B']);
}

/// The size of a file as people read it: `999 B`, `1.50 KB`, `2.00 MB`.
pub fn format_file_size(file_size: u64) -> (r: String)
    ensures
        r@ == size_text(file_size),
{
    let mut s = String::new();
    if file_size < 1000 {
        push_decimal(&mut s, file_size);
        push_char(&mut s, ' ');
        push_char(&mut s, 'B');
        assert(s@ =~= size_text(file_size));
    } else if file_size < 1_000_000 {
        push_hundredths(&mut s, div_rounded(file_size, 10));
        push_unit(&mut s, 'K');
    } else if file_size < 1_000_000_000 {
        push_hundredths(&mut s, div_rounded(file_size, 10_000));
        push_unit(&mut s, 'M');
    } else {
        push_hundredths(&mut s, div_rounded(file_size, 10_000_000));
        push_unit(&mut s, 'G');
    }
    s
}

/// One row of a directory listing.
pub struct DirectoryFile {
    pub is_dir: bool,
    pub file_size: String,
    pub file_name: String,
}

impl DirectoryFile {
    /// The row for an entry named `name`: a directory gets a trailing `/` and
    /// no size, a file the size of its `len` bytes.
    pub fn from_entry(is_dir: bool, name: &str, len: u64) -> (r: DirectoryFile)
        ensures
            r.is_dir == is_dir,
            r.file_name@ == (if is_dir { name@.push('/') } else { name@ }),
            r.file_size@ == (if is_dir { Seq::<char>::empty() } else { size_text(len) }),
    {
        let mut file_name = name.to_owned();
        let file_size;
        if is_dir {
            push_char(&mut file_name, '/');
            file_size = String::new();
        } else {
            file_size = format_file_size(len);
        }
        DirectoryFile { is_dir, file_size, file_name }
    }
}

} // verus!
