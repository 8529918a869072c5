use vstd::prelude::*;
use vstd::string::StrSliceExecFns;

verus! {

/// The structured error an append into a header collection can fail with.
///
/// `Forbidden` and `Immutable` mirror the guest-visible header interface;
/// a `Fields` owned by this library is never immutable and forbids no
/// names, so `append` only ever reports `InvalidSyntax`.
#[derive(Clone, Copy, Debug, PartialEq, Eq, Structural)]
pub enum HeaderError {
    InvalidSyntax,
    Forbidden,
    Immutable,
}

/// A header name character: the token grammar of HTTP field names.
pub open spec fn is_token_char(c: char) -> bool {
    let u = c as u32;
    ||| 48 <= u && u <= 57
    ||| 65 <= u && u <= 90
    ||| 97 <= u && u <= 122
    ||| u == 33
    ||| 35 <= u && u <= 39
    ||| u == 42
    ||| u == 43
    ||| u == 45
    ||| u == 46
    ||| u == 94
    ||| u == 95
    ||| u == 96
    ||| u == 124
    ||| u == 126
}

/// A valid header name: a non-empty sequence of token characters.
pub open spec fn valid_header_name(s: Seq<char>) -> bool {
    s.len() > 0 && forall|i: int| 0 <= i < s.len() ==> is_token_char(#[trigger] s[i])
}

/// A header value byte: horizontal tab, a visible ASCII byte or space, or
/// a byte outside the ASCII range; control bytes and DEL are excluded.
pub open spec fn is_value_byte(b: u8) -> bool {
    b == 9 || (32 <= b && b <= 126) || 128 <= b
}

/// A valid header value: every byte is a header value byte.
pub open spec fn valid_header_value(s: Seq<u8>) -> bool {
    forall|i: int| 0 <= i < s.len() ==> is_value_byte(#[trigger] s[i])
}

/// Every entry of a header sequence has a valid name and value.
pub open spec fn fields_wf(v: Seq<(Seq<char>, Seq<u8>)>) -> bool {
    forall|i: int| 0 <= i < v.len()
        ==> valid_header_name(#[trigger] v[i].0) && valid_header_value(v[i].1)
}

/// An ordered name/byte-value collection of HTTP headers.
///
/// Names are stored case-sensitively; consumers compare them
/// case-insensitively.
pub struct Fields {
    entries: Vec<(String, Vec<u8>)>,
}

impl View for Fields {
    type V = Seq<(Seq<char>, Seq<u8>)>;

    closed spec fn view(&self) -> Seq<(Seq<char>, Seq<u8>)> {
        self.entries@.map_values(|e: (String, Vec<u8>)| (e.0@, e.1@))
    }
}

/// Checks the header-name token grammar.
pub fn check_header_name(name: &str) -> (r: bool)
    ensures
        r == valid_header_name(name@),
{
    let len = name.unicode_len();
    if len == 0 {
        return false;
    }
    let mut i: usize = 0;
    while i < len
        invariant
            i <= len,
            len == name@.len(),
            forall|j: int| 0 <= j < i ==> is_token_char(#[trigger] name@[j]),
        decreases len - i,
    {
        let c = name.get_char(i);
        let u = c as u32;
        let ok = (48 <= u && u <= 57) || (65 <= u && u <= 90) || (97 <= u && u <= 122)
            || u == 33 || (35 <= u && u <= 39) || u == 42 || u == 43 || u == 45 || u == 46
            || u == 94 || u == 95 || u == 96 || u == 124 || u == 126;
        if !ok {
            assert(!is_token_char(name@[i as int]));
            return false;
        }
        i = i + 1;
    }
    true
}

fn check_value(value: &Vec<u8>) -> (r: bool)
    ensures
        r == valid_header_value(value@),
{
    let mut i: usize = 0;
    while i < value.len()
        invariant
            i <= value@.len(),
            forall|j: int| 0 <= j < i ==> is_value_byte(#[trigger] value@[j]),
        decreases value@.len() - i,
    {
        let b = value[i];
        if !(b == 9 || (32 <= b && b <= 126) || 128 <= b) {
            return false;
        }
        i = i + 1;
    }
    true
}

/// A copy of a byte vector.
pub fn clone_byte_vec(v: &Vec<u8>) -> (r: Vec<u8>)
    ensures
        r@ == v@,
{
    let mut r: Vec<u8> = Vec::new();
    let mut i: usize = 0;
    while i < v.len()
        invariant
            i <= v@.len(),
            r@ == v@.subrange(0, i as int),
        decreases v@.len() - i,
    {
        r.push(v[i]);
        assert(r@ =~= v@.subrange(0, i + 1 as int));
        i = i + 1;
    }
    assert(r@ =~= v@);
    r
}

impl Fields {
    /// An empty header collection.
    pub fn new() -> (r: Fields)
        ensures
            r@ == Seq::<(Seq<char>, Seq<u8>)>::empty(),
    {
        let r = Fields { entries: Vec::new() };
        assert(r@ =~= Seq::<(Seq<char>, Seq<u8>)>::empty());
        r
    }

    /// Appends one header, validating the name and value grammar first.
    ///
    /// Succeeds exactly when the name is a non-empty token and every value
    /// byte is legal; otherwise reports `InvalidSyntax` and leaves the
    /// collection unchanged.
    pub fn append(&mut self, name: &String, value: &Vec<u8>) -> (r: Result<(), HeaderError>)
        ensures
            r is Ok <==> valid_header_name(name@) && valid_header_value(value@),
            r is Ok ==> final(self)@ == old(self)@.push((name@, value@)),
            r is Err ==> final(self)@ == old(self)@ && r == Err::<(), HeaderError>(
                HeaderError::InvalidSyntax,
            ),
            fields_wf(old(self)@) ==> fields_wf(final(self)@),
    {
        if !check_header_name(name.as_str()) {
            return Err(HeaderError::InvalidSyntax);
        }
        if !check_value(value) {
            return Err(HeaderError::InvalidSyntax);
        }
        let name_copy: String = name.clone();
        let value_copy: Vec<u8> = clone_byte_vec(value);
        self.entries.push((name_copy, value_copy));
        proof {
            assert(self@ =~= old(self)@.push((name@, value@)));
            if fields_wf(old(self)@) {
                assert forall|i: int| 0 <= i < self@.len() implies valid_header_name(
                    #[trigger] self@[i].0,
                ) && valid_header_value(self@[i].1) by {
                    if i < old(self)@.len() {
                        assert(self@[i] == old(self)@[i]);
                    }
                }
            }
        }
        Ok(())
    }

    /// The number of headers held.
    pub fn len(&self) -> (r: usize)
        ensures
            r == self@.len(),
    {
        self.entries.len()
    }

    /// A borrow of the header at a position.
    pub fn entry_at(&self, i: usize) -> (r: &(String, Vec<u8>))
        requires
            i < self@.len(),
        ensures
            r.0@ == self@[i as int].0,
            r.1@ == self@[i as int].1,
    {
        &self.entries[i]
    }

    /// A copy of the headers, in order, as plain pairs.
    pub fn entries(&self) -> (r: Vec<(String, Vec<u8>)>)
        ensures
            r@.len() == self@.len(),
            forall|i: int|
                0 <= i < r@.len() ==> (#[trigger] r@[i]).0@ == self@[i].0 && r@[i].1@
                    == self@[i].1,
    {
        let mut r: Vec<(String, Vec<u8>)> = Vec::new();
        let mut i: usize = 0;
        while i < self.entries.len()
            invariant
                i <= self@.len(),
                self@.len() == self.entries@.len(),
                r@.len() == i,
                forall|j: int|
                    0 <= j < i ==> (#[trigger] r@[j]).0@ == self@[j].0 && r@[j].1@ == self@[j].1,
            decreases self@.len() - i,
        {
            let name: String = self.entries[i].0.clone();
            let value: Vec<u8> = clone_byte_vec(&self.entries[i].1);
            r.push((name, value));
            i = i + 1;
        }
        r
    }

    /// A copy of the whole collection.
    pub fn duplicate(&self) -> (r: Fields)
        ensures
            r@ == self@,
    {
        let mut entries: Vec<(String, Vec<u8>)> = Vec::new();
        let mut i: usize = 0;
        while i < self.entries.len()
            invariant
                i <= self@.len(),
                self@.len() == self.entries@.len(),
                entries@.len() == i,
                forall|j: int|
                    0 <= j < i ==> (#[trigger] entries@[j]).0@ == self@[j].0 && entries@[j].1@
                        == self@[j].1,
            decreases self@.len() - i,
        {
            let name: String = self.entries[i].0.clone();
            let value: Vec<u8> = clone_byte_vec(&self.entries[i].1);
            entries.push((name, value));
            i = i + 1;
        }
        let r = Fields { entries };
        assert(r@ =~= self@);
        r
    }
}

} // verus!
