use vstd::prelude::*;
use vstd::string::StringExecFns;

verus! {

/// The decimal digit characters, lowest first.
pub open spec fn digit_char(d: int) -> char
    recommends
        0 <= d <= 9,
{
    if d == 0 {
        '0'
    } else if d == 1 {
        '1'
    } else if d == 2 {
        '2'
    } else if d == 3 {
        '3'
    } else if d == 4 {
        '4'
    } else if d == 5 {
        '5'
    } else if d == 6 {
        '6'
    } else if d == 7 {
        '7'
    } else if d == 8 {
        '8'
    } else {
        '9'
    }
}

/// The decimal rendering of a number, most significant digit first,
/// with no leading zeros (`0` itself is the single digit `0`).
pub open spec fn dec_str(n: nat) -> Seq<char>
    decreases n,
{
    if n < 10 {
        seq![digit_char(n as int)]
    } else {
        dec_str(n / 10).push(digit_char((n % 10) as int))
    }
}

/// The characters of a run of digit values read back to front: the
/// order digits come off a number when its lowest digit is split off
/// first.
pub open spec fn rev_digit_chars(ds: Seq<u8>) -> Seq<char>
    decreases ds.len(),
{
    if ds.len() == 0 {
        Seq::empty()
    } else {
        seq![digit_char(ds.last() as int)] + rev_digit_chars(ds.drop_last())
    }
}

/// Appends one decimal digit character.
fn push_digit(r: &mut String, d: u8)
    requires
        d < 10,
    ensures
        final(r)@ == old(r)@.push(digit_char(d as int)),
{
    proof {
        reveal_strlit("0");
        reveal_strlit("1");
        reveal_strlit("2");
        reveal_strlit("3");
        reveal_strlit("4");
        reveal_strlit("5");
        reveal_strlit("6");
        reveal_strlit("7");
        reveal_strlit("8");
        reveal_strlit("9");
    }
    let ghost before = r@;
    if d == 0 {
        r.append("0");
    } else if d == 1 {
        r.append("1");
    } else if d == 2 {
        r.append("2");
    } else if d == 3 {
        r.append("3");
    } else if d == 4 {
        r.append("4");
    } else if d == 5 {
        r.append("5");
    } else if d == 6 {
        r.append("6");
    } else if d == 7 {
        r.append("7");
    } else if d == 8 {
        r.append("8");
    } else {
        r.append("9");
    }
    proof {
        assert(r@ =~= before.push(digit_char(d as int)));
    }
}

/// Renders a number as its decimal digits: lowest digits are split off
/// first, then appended back to front behind the leading digit.
pub(crate) fn u64_to_dec(n: u64) -> (r: String)
    ensures
        r@ == dec_str(n as nat),
{
    let mut digits: Vec<u8> = Vec::new();
    let mut rem = n;
    while rem >= 10
        invariant
            forall|i: int| 0 <= i < digits@.len() ==> digits@[i] < 10,
            dec_str(n as nat) == dec_str(rem as nat) + rev_digit_chars(digits@),
        decreases rem,
    {
        let ghost digits_before = digits@;
        let d = (rem % 10) as u8;
        digits.push(d);
        rem = rem / 10;
        proof {
            assert(digits@.drop_last() =~= digits_before);
            assert(rev_digit_chars(digits@) == seq![digit_char(d as int)] + rev_digit_chars(
                digits_before,
            ));
            assert(dec_str(n as nat) =~= dec_str(rem as nat) + rev_digit_chars(digits@));
        }
    }
    let mut r = String::new();
    push_digit(&mut r, rem as u8);
    proof {
        assert(r@ =~= dec_str(rem as nat));
    }
    while digits.len() > 0
        invariant
            forall|i: int| 0 <= i < digits@.len() ==> digits@[i] < 10,
            r@ + rev_digit_chars(digits@) == dec_str(n as nat),
        decreases digits@.len(),
    {
        let ghost digits_before = digits@;
        let d = digits.pop().unwrap();
        push_digit(&mut r, d);
        proof {
            assert(digits@ =~= digits_before.drop_last());
            assert(d == digits_before.last());
            assert(rev_digit_chars(digits_before) == seq![digit_char(d as int)]
                + rev_digit_chars(digits@));
            assert(r@ + rev_digit_chars(digits@) =~= dec_str(n as nat));
        }
    }
    proof {
        assert(r@ =~= dec_str(n as nat));
    }
    r
}

/// Trait to encode objects to machine code. `amd64_bytes` is the byte
/// sequence an object stands for; `write_amd64_bytes` appends exactly
/// those bytes. Objects whose encoding is out of scope here say so
/// through `amd64_encodable`.
pub trait SerializeAMD64MachineCode {
    spec fn amd64_encodable(&self) -> bool;

    spec fn amd64_bytes(&self) -> Seq<u8>;

    fn write_amd64_bytes(&self, bytes: &mut Vec<u8>)
        requires
            self.amd64_encodable(),
        ensures
            final(bytes)@ == old(bytes)@ + self.amd64_bytes(),
    ;
}

/// Trait to encode instruction blocks to C code strings. `c_text` is
/// the exact text a block renders to for a given positional counter
/// and architecture; `encode_to_c` produces it.
pub trait CEncoder {
    spec fn c_text(&self, index: int, arch: Architecture) -> Seq<char>;

    fn encode_to_c(&self, index: u32, arch: Architecture) -> (r: String)
        ensures
            r@ == self.c_text(index as int, arch),
    ;
}

/// The architectures that are supported by these encoders.
/// `Arm` is a declared stub: every encoder branch for it emits nothing.
#[derive(Clone, Copy, PartialEq, Eq, Structural, Debug)]
pub enum Architecture {
    Amd64,
    Arm,
}

impl Architecture {
    /// Parses an architecture name; any string outside the closed set
    /// of supported names is a user error.
    pub fn try_from(value: String) -> (r: Result<Architecture, String>)
        ensures
            value@ == "amd64"@ ==> r == Ok::<Architecture, String>(Architecture::Amd64),
            value@ == "arm"@ ==> r == Ok::<Architecture, String>(Architecture::Arm),
            !(value@ == "amd64"@ || value@ == "arm"@) ==> (r matches Err(e)
                && e@ == "please provide a valid architecture"@),
    {
        proof {
            reveal_strlit("amd64");
            reveal_strlit("arm");
            assert("amd64"@.len() == 5);
            assert("arm"@.len() == 3);
        }
        let amd64 = "amd64".to_owned();
        let arm = "arm".to_owned();
        if value == amd64 {
            Ok(Architecture::Amd64)
        } else if value == arm {
            Ok(Architecture::Arm)
        } else {
            Err("please provide a valid architecture".to_owned())
        }
    }
}

} // verus!
