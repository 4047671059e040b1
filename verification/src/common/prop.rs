//! Typed reads of a property's value, shared by both engines.
use crate::base::node::bytes_as_str;
use crate::base::tree::DevTree;
use crate::bytes::{
    lemma_nul_pos, read_be_u32, read_be_u64, read_bstring0, spec_be_u32, spec_be_u64, spec_nul_pos,
};
use crate::error::DevTreeError;
use crate::wire::Phandle;
use vstd::prelude::*;
use vstd::string::StringSliceAdditionalSpecFns;
use vstd::utf8::valid_utf8;

verus! {

/// The bytes of the property name that marks a node's compatible strings.
pub open spec fn spec_compatible_name() -> Seq<u8> {
    seq![99u8, 111u8, 109u8, 112u8, 97u8, 116u8, 105u8, 98u8, 108u8, 101u8]
}

/// Whether the zero-terminated string at `start` of `buf` exists and is `s`.
pub open spec fn spec_string_is(buf: Seq<u8>, start: int, s: Seq<u8>) -> bool {
    &&& 0 <= start
    &&& spec_nul_pos(buf, start, buf.len() as int) < buf.len()
    &&& buf.subrange(start, spec_nul_pos(buf, start, buf.len() as int)) == s
}

/// Whether a property is named `compatible` and its value starts with the
/// zero-terminated string `target`. The name is the zero-terminated string
/// at `strings + name_offset` of the tree.
pub open spec fn spec_compatible(
    buf: Seq<u8>,
    strings: int,
    name_offset: int,
    value: Seq<u8>,
    target: Seq<u8>,
) -> bool {
    spec_string_is(buf, strings + name_offset, spec_compatible_name()) && spec_string_is(
        value,
        0,
        target,
    )
}

/// Whether two byte strings are equal.
pub fn bytes_eq(a: &[u8], b: &[u8]) -> (r: bool)
    ensures
        r == (a@ == b@),
{
    if a.len() != b.len() {
        return false;
    }
    let mut i: usize = 0;
    while i < a.len()
        invariant
            i <= a@.len(),
            a@.len() == b@.len(),
            forall|j: int| 0 <= j < i ==> a@[j] == b@[j],
        decreases a@.len() - i,
    {
        if a[i] != b[i] {
            return false;
        }
        i = i + 1;
    }
    assert(a@ =~= b@);
    true
}

/// Whether the zero-terminated string at `start` of `buf` exists and is `s`.
pub fn string_is(buf: &[u8], start: usize, s: &[u8]) -> (r: bool)
    ensures
        r == spec_string_is(buf@, start as int, s@),
{
    match read_bstring0(buf, start) {
        Ok(found) => bytes_eq(found, s),
        Err(_) => false,
    }
}

/// Where the zero-terminated string that starts at `from` ends: the position
/// of its zero byte, if one stands before the end of `v`.
pub open spec fn spec_str_end(v: Seq<u8>, from: int) -> Option<int> {
    if 0 <= from && spec_nul_pos(v, from, v.len() as int) < v.len() {
        Some(spec_nul_pos(v, from, v.len() as int))
    } else {
        None
    }
}

/// The zero-terminated strings that `v` consists of from `from` on, or
/// `None` where the last of them lacks its zero byte.
pub open spec fn spec_str_list(v: Seq<u8>, from: int) -> Option<Seq<Seq<u8>>>
    decreases v.len() - from,
{
    if from < 0 || from >= v.len() {
        Some(Seq::empty())
    } else {
        match spec_str_end(v, from) {
            None => None,
            Some(end) => {
                proof {
                    lemma_nul_pos(v, from, v.len() as int);
                }
                match spec_str_list(v, end + 1) {
                    None => None,
                    Some(rest) => Some(seq![v.subrange(from, end)] + rest),
                }
            },
        }
    }
}

/// How the filling of a caller's list with the strings of a value ends.
pub enum StrListEnd {
    /// The value was used up.
    Complete,
    /// A string lacks its zero byte.
    Unterminated,
    /// A string is not valid UTF-8.
    NotText,
    /// The list has no room for a string that is there.
    NoRoom,
}

/// The strings of `v` from `from` on that go into a list with `room` free
/// entries before the filling ends, and how it ends. Each string is first
/// looked for, then decoded, then stored.
pub open spec fn spec_fill(v: Seq<u8>, from: int, room: int) -> (Seq<Seq<u8>>, StrListEnd)
    decreases v.len() - from,
{
    if from < 0 || from >= v.len() {
        (Seq::empty(), StrListEnd::Complete)
    } else {
        match spec_str_end(v, from) {
            None => (Seq::empty(), StrListEnd::Unterminated),
            Some(end) => {
                if !valid_utf8(v.subrange(from, end)) {
                    (Seq::empty(), StrListEnd::NotText)
                } else if room <= 0 {
                    (Seq::empty(), StrListEnd::NoRoom)
                } else {
                    proof {
                        lemma_nul_pos(v, from, v.len() as int);
                    }
                    let (rest, how) = spec_fill(v, end + 1, room - 1);
                    (seq![v.subrange(from, end)] + rest, how)
                }
            },
        }
    }
}

/// What a property handle of either engine holds.
pub trait DevTreePropStateBase<'dt> {
    /// The bytes of the value.
    spec fn spec_propbuf(&self) -> Seq<u8>;

    /// The offset of the name in the strings block.
    spec fn spec_nameoff(&self) -> int;

    /// The bytes of the tree that the property lies in.
    spec fn spec_tree(&self) -> Seq<u8>;

    /// Where the strings block of that tree starts.
    spec fn spec_strings(&self) -> int;

    /// The handle is valid.
    spec fn spec_valid(&self) -> bool;

    /// The bytes of the value.
    fn propbuf(&self) -> (r: &'dt [u8])
        requires
            self.spec_valid(),
        ensures
            r@ == self.spec_propbuf(),
    ;

    /// The offset of the name in the strings block.
    fn nameoff(&self) -> (r: usize)
        requires
            self.spec_valid(),
        ensures
            r == self.spec_nameoff(),
    ;

    /// The tree that the property lies in.
    fn fdt(&self) -> (r: &DevTree<'dt>)
        requires
            self.spec_valid(),
        ensures
            r.wf(),
            r@ == self.spec_tree(),
            r.spec_off_dt_strings() == self.spec_strings(),
    ;
}

/// The typed reads of a property's value. None of them changes anything,
/// and a failed read says nothing of the next.
pub trait DevTreePropState<'dt>: DevTreePropStateBase<'dt> {
    /// The name of the property: the zero-terminated string of the strings
    /// block at the property's name offset.
    fn name(&self) -> (r: Result<&'dt str, DevTreeError>)
        requires
            self.spec_valid(),
        ensures
            match spec_str_end(self.spec_tree(), self.spec_strings() + self.spec_nameoff()) {
                None => r matches Err(e) && e is ParseError,
                Some(end) => {
                    let name = self.spec_tree().subrange(
                        self.spec_strings() + self.spec_nameoff(),
                        end,
                    );
                    if valid_utf8(name) {
                        r matches Ok(s) && s.spec_bytes() == name
                    } else {
                        r matches Err(e) && e is StrError
                    }
                },
            },
    {
        let fdt = self.fdt();
        let start: usize = match fdt.off_dt_strings().checked_add(self.nameoff()) {
            Some(s) => s,
            None => {
                return Err(DevTreeError::ParseError);
            },
        };
        match read_bstring0(fdt.buf(), start) {
            Err(e) => Err(DevTreeError::from_read_error(e)),
            Ok(bytes) => bytes_as_str(bytes),
        }
    }

    /// The length of the value in bytes.
    fn length(&self) -> (r: usize)
        requires
            self.spec_valid(),
        ensures
            r == self.spec_propbuf().len(),
    {
        self.propbuf().len()
    }

    /// The big-endian `u32` at `offset` of the value, aligned or not.
    fn get_u32(&self, offset: usize) -> (r: Result<u32, DevTreeError>)
        requires
            self.spec_valid(),
        ensures
            r is Ok <==> offset + 4 <= self.spec_propbuf().len(),
            r matches Ok(v) ==> v == spec_be_u32(self.spec_propbuf(), offset as int),
            r matches Err(e) ==> e is InvalidOffset,
    {
        match read_be_u32(self.propbuf(), offset) {
            Ok(v) => Ok(v),
            Err(_) => Err(DevTreeError::InvalidOffset),
        }
    }

    /// The big-endian `u64` at `offset` of the value, aligned or not.
    fn get_u64(&self, offset: usize) -> (r: Result<u64, DevTreeError>)
        requires
            self.spec_valid(),
        ensures
            r is Ok <==> offset + 8 <= self.spec_propbuf().len(),
            r matches Ok(v) ==> v == spec_be_u64(self.spec_propbuf(), offset as int),
            r matches Err(e) ==> e is InvalidOffset,
    {
        match read_be_u64(self.propbuf(), offset) {
            Ok(v) => Ok(v),
            Err(_) => Err(DevTreeError::InvalidOffset),
        }
    }

    /// The phandle at `offset` of the value: a big-endian `u32`.
    fn get_phandle(&self, offset: usize) -> (r: Result<Phandle, DevTreeError>)
        requires
            self.spec_valid(),
        ensures
            r is Ok <==> offset + 4 <= self.spec_propbuf().len(),
            r matches Ok(v) ==> v == spec_be_u32(self.spec_propbuf(), offset as int),
            r matches Err(e) ==> e is InvalidOffset,
    {
        match read_be_u32(self.propbuf(), offset) {
            Ok(v) => Ok(v),
            Err(_) => Err(DevTreeError::InvalidOffset),
        }
    }

    /// The first string of the value.
    fn get_str(&self) -> (r: Result<&'dt str, DevTreeError>)
        requires
            self.spec_valid(),
        ensures
            match spec_str_end(self.spec_propbuf(), 0) {
                None => r matches Err(e) && e is ParseError,
                Some(end) => if valid_utf8(self.spec_propbuf().subrange(0, end)) {
                    r matches Ok(s) && s.spec_bytes() == self.spec_propbuf().subrange(0, end)
                } else {
                    r matches Err(e) && e is StrError
                },
            },
    {
        self.get_str_at(0)
    }

    /// The zero-terminated string that starts at `offset` of the value.
    fn get_str_at(&self, offset: usize) -> (r: Result<&'dt str, DevTreeError>)
        requires
            self.spec_valid(),
        ensures
            match spec_str_end(self.spec_propbuf(), offset as int) {
                None => r matches Err(e) && e is ParseError,
                Some(end) => if valid_utf8(self.spec_propbuf().subrange(offset as int, end)) {
                    r matches Ok(s) && s.spec_bytes() == self.spec_propbuf().subrange(
                        offset as int,
                        end,
                    )
                } else {
                    r matches Err(e) && e is StrError
                },
            },
    {
        match read_bstring0(self.propbuf(), offset) {
            Err(e) => Err(DevTreeError::from_read_error(e)),
            Ok(bytes) => bytes_as_str(bytes),
        }
    }

    /// The number of zero-terminated strings that the value consists of.
    /// They are not decoded.
    fn get_str_count(&self) -> (r: Result<usize, DevTreeError>)
        requires
            self.spec_valid(),
        ensures
            match spec_str_list(self.spec_propbuf(), 0) {
                None => r matches Err(e) && e is ParseError,
                Some(list) => r matches Ok(n) && n == list.len(),
            },
    {
        let buf: &'dt [u8] = self.propbuf();
        let len: usize = buf.len();
        let mut offset: usize = 0;
        let mut count: usize = 0;
        while offset < len
            invariant
                len == buf@.len(),
                buf@ == self.spec_propbuf(),
                offset <= len,
                count <= offset,
                match spec_str_list(buf@, offset as int) {
                    None => spec_str_list(buf@, 0) is None,
                    Some(rest) => spec_str_list(buf@, 0) matches Some(all) && all.len() == count
                        + rest.len(),
                },
            decreases len - offset,
        {
            proof {
                lemma_nul_pos(buf@, offset as int, len as int);
            }
            match read_bstring0(buf, offset) {
                Err(e) => {
                    return Err(DevTreeError::from_read_error(e));
                },
                Ok(s) => {
                    offset = offset + s.len() + 1;
                    count = count + 1;
                },
            }
        }
        Ok(count)
    }

    /// Stores the strings that the value consists of in `list`, from its
    /// start on, and says how many there are. The entries after them stay
    /// as they were. Where a string lacks its zero byte, is not valid UTF-8
    /// or finds no room in `list`, the strings before it are stored and the
    /// call fails.
    fn get_strlist(&self, list: &mut [Option<&'dt str>]) -> (r: Result<usize, DevTreeError>)
        requires
            self.spec_valid(),
        ensures
            final(list)@.len() == old(list)@.len(),
            ({
                let (strings, how) = spec_fill(self.spec_propbuf(), 0, old(list)@.len() as int);
                &&& strings.len() <= old(list)@.len()
                &&& forall|i: int|
                    0 <= i < strings.len() ==> (#[trigger] final(list)@[i] matches Some(s)
                        && s.spec_bytes() == strings[i])
                &&& forall|i: int|
                    strings.len() <= i < old(list)@.len() ==> final(list)@[i] == old(list)@[i]
                &&& match how {
                    StrListEnd::Complete => r matches Ok(n) && n == strings.len(),
                    StrListEnd::Unterminated => r matches Err(e) && e is ParseError,
                    StrListEnd::NotText => r matches Err(e) && e is StrError,
                    StrListEnd::NoRoom => r matches Err(e) && e is NotEnoughMemory,
                }
            }),
    {
        let buf: &'dt [u8] = self.propbuf();
        let len: usize = buf.len();
        let room: usize = list.len();
        let mut offset: usize = 0;
        let mut count: usize = 0;
        while offset < len
            invariant
                len == buf@.len(),
                buf@ == self.spec_propbuf(),
                room == old(list)@.len(),
                list@.len() == room,
                offset <= len,
                count <= offset,
                count <= room,
                ({
                    let (strings, how) = spec_fill(buf@, 0, room as int);
                    let (rest, rest_how) = spec_fill(buf@, offset as int, room - count);
                    &&& how == rest_how
                    &&& strings.len() == count + rest.len()
                    &&& forall|i: int| 0 <= i < rest.len() ==> strings[count + i] == rest[i]
                    &&& forall|i: int|
                        0 <= i < count ==> (#[trigger] list@[i] matches Some(s) && s.spec_bytes()
                            == strings[i])
                }),
                forall|i: int| count <= i < room ==> list@[i] == old(list)@[i],
            decreases len - offset,
        {
            proof {
                lemma_nul_pos(buf@, offset as int, len as int);
            }
            let bytes: &'dt [u8] = match read_bstring0(buf, offset) {
                Err(e) => {
                    return Err(DevTreeError::from_read_error(e));
                },
                Ok(b) => b,
            };
            let s: &'dt str = match bytes_as_str(bytes) {
                Err(e) => {
                    return Err(e);
                },
                Ok(s) => s,
            };
            if count >= room {
                return Err(DevTreeError::NotEnoughMemory);
            }
            let ghost strings = spec_fill(buf@, 0, room as int).0;
            let ghost rest = spec_fill(buf@, offset as int, room - count).0;
            let ghost tail = spec_fill(buf@, offset + bytes@.len() + 1, room - count - 1).0;
            proof {
                assert(rest =~= seq![bytes@] + tail);
                assert(strings[count + 0] == rest[0]);
                assert forall|i: int| 0 <= i < tail.len() implies strings[count + 1 + i]
                    == tail[i] by {
                    assert(rest[i + 1] == tail[i]);
                    assert(strings[count + (i + 1)] == rest[i + 1]);
                }
            }
            list[count] = Some(s);
            offset = offset + bytes.len() + 1;
            count = count + 1;
        }
        Ok(count)
    }

    /// Whether the property is named `compatible` and its value starts with
    /// the string `string`.
    fn is_compatible(&self, string: &str) -> (r: bool)
        requires
            self.spec_valid(),
        ensures
            r == spec_compatible(
                self.spec_tree(),
                self.spec_strings(),
                self.spec_nameoff(),
                self.spec_propbuf(),
                string.spec_bytes(),
            ),
    {
        let fdt = self.fdt();
        let name: [u8; 10] = [99, 111, 109, 112, 97, 116, 105, 98, 108, 101];
        assert(name@ =~= spec_compatible_name());
        let start: usize = match fdt.off_dt_strings().checked_add(self.nameoff()) {
            Some(s) => s,
            None => {
                return false;
            },
        };
        string_is(fdt.buf(), start, name.as_slice()) && string_is(
            self.propbuf(),
            0,
            string.as_bytes(),
        )
    }

    /// The bytes of the value.
    fn get_raw(&self) -> (r: &'dt [u8])
        requires
            self.spec_valid(),
        ensures
            r@ == self.spec_propbuf(),
    {
        self.propbuf()
    }
}

} // verus!
