use vstd::prelude::*;
use vstd::string::StringExecFns;

use crate::error::Error;

verus! {

/// Longest address accepted.
pub const MAX_ADDRESS_LEN: usize = 40;

/// A character of the base58 alphabet: digits but `0`, letters but `I`, `O` and `l`.
pub open spec fn is_base58_char(c: char) -> bool {
    ('1' <= c && c <= '9') || ('A' <= c && c <= 'Z' && c != 'I' && c != 'O') || ('a' <= c
        && c <= 'z' && c != 'l')
}

/// A well-formed address: a leading `1`, then base58 characters only, at most
/// `MAX_ADDRESS_LEN` characters in all.
pub open spec fn is_valid_address(s: Seq<char>) -> bool {
    &&& 0 < s.len() <= MAX_ADDRESS_LEN
    &&& s[0] == '1'
    &&& forall|i: int| 0 <= i < s.len() ==> is_base58_char(#[trigger] s[i])
}

/// What parsing yields on a string: its canonical form, which is the string itself.
pub open spec fn spec_parse(raw: Seq<char>) -> Option<Seq<char>> {
    if is_valid_address(raw) {
        Some(raw)
    } else {
        None
    }
}

/// The short form used in diagnostics: the first six and the last four
/// characters around `...`, or the whole address when it is ten characters or fewer.
pub open spec fn spec_short(s: Seq<char>) -> Seq<char> {
    if s.len() <= 10 {
        s
    } else {
        s.subrange(0, 6) + seq!['.', '.', '.'] + s.subrange(s.len() - 4, s.len() as int)
    }
}

/// A site's address, held in canonical form.
#[derive(Debug, Clone, Hash)]
pub struct Address {
    pub address: String,
}

impl View for Address {
    type V = Seq<char>;

    open spec fn view(&self) -> Seq<char> {
        self.address@
    }
}

impl Address {
    pub open spec fn wf(&self) -> bool {
        is_valid_address(self@)
    }

    /// Parses an address string, refusing one that is not in canonical encoding.
    pub fn parse(raw: &str) -> (r: Result<Address, Error>)
        ensures
            r is Ok <==> spec_parse(raw@) is Some,
            r matches Ok(a) ==> a.wf() && spec_parse(raw@) == Some(a@),
            r matches Err(e) ==> e == Error::MalformedAddress,
    {
        let n = raw.unicode_len();
        if n == 0 || n > MAX_ADDRESS_LEN {
            return Err(Error::MalformedAddress);
        }
        if raw.get_char(0) != '1' {
            return Err(Error::MalformedAddress);
        }
        let mut i: usize = 0;
        while i < n
            invariant
                n == raw@.len(),
                i <= n,
                forall|j: int| 0 <= j < i ==> is_base58_char(#[trigger] raw@[j]),
            decreases n - i,
        {
            let c = raw.get_char(i);
            let ok = ('1' <= c && c <= '9') || ('A' <= c && c <= 'Z' && c != 'I' && c != 'O') || (
            'a' <= c && c <= 'z' && c != 'l');
            if !ok {
                return Err(Error::MalformedAddress);
            }
            i = i + 1;
        }
        Ok(Address { address: String::from_str(raw) })
    }

    /// The canonical rendering of the address.
    pub fn to_canonical(&self) -> (r: String)
        ensures
            r@ == self@,
    {
        self.address.clone()
    }

    /// The short form of the address, for diagnostics.
    pub fn get_address_short(&self) -> (r: String)
        ensures
            r@ == spec_short(self@),
    {
        let s = self.address.as_str();
        let n = s.unicode_len();
        if n <= 10 {
            String::from_str(s)
        } else {
            let head = s.substring_char(0, 6);
            let tail = s.substring_char(n - 4, n);
            let r = String::from_str(head).concat("...").concat(tail);
            proof {
                reveal_strlit("...");
            }
            r
        }
    }
}

/// Two addresses are equal when their canonical forms are.
impl PartialEq for Address {
    fn eq(&self, other: &Address) -> (r: bool) {
        self.address == other.address
    }
}

impl vstd::std_specs::cmp::PartialEqSpecImpl for Address {
    open spec fn obeys_eq_spec() -> bool {
        true
    }

    open spec fn eq_spec(&self, other: &Address) -> bool {
        self@ == other@
    }
}

impl Eq for Address {

}

/// Parsing a well-formed address and rendering it gives the string back.
pub proof fn lemma_parse_render_round_trip(raw: Seq<char>)
    requires
        is_valid_address(raw),
    ensures
        spec_parse(raw) == Some(raw),
{
}

} // verus!
