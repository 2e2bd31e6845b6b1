//! The native string: a growable byte buffer with an encoding tag.

use crate::compare::{compare, equal, lex_compare};
use crate::encoding::{lemma_ascii_is_utf8, lemma_utf8_append, normalize, Encoding};
use crate::error::Exception;
use crate::radix::{
    check_radix, is_legal_radix, lemma_number_is_ascii, lemma_render_is_digits, parse_integer,
    parse_radix, render, render_radix,
};
use crate::search::{index, index_of, position, resolve_offset, start_of};
use vstd::prelude::*;
use vstd::slice::{slice_subrange, slice_to_vec};
use vstd::utf8::valid_utf8;

verus! {

/// What a string is, to a contract: its bytes, the room it has reserved, and
/// its encoding tag.
pub struct StringModel {
    pub bytes: Seq<u8>,
    pub capacity: nat,
    pub encoding: Encoding,
}

impl StringModel {
    /// The invariant of every string: the length is no more than the
    /// capacity.
    pub open spec fn wf(self) -> bool {
        self.bytes.len() <= self.capacity <= usize::MAX
    }

    /// True when the tag promises no more than the bytes hold: a `Utf8` tag
    /// stands over valid UTF-8. Validation and every change in place
    /// establish this; a string made under a tag that was asked for has the
    /// tag, whatever its bytes.
    pub open spec fn has_valid_encoding(self) -> bool {
        self.encoding.admits(self.bytes)
    }

    /// A fresh string over `bytes` under the tag `encoding`, with exactly the
    /// room the bytes need.
    pub open spec fn of_bytes(bytes: Seq<u8>, encoding: Encoding) -> StringModel {
        StringModel { bytes, capacity: bytes.len(), encoding }
    }

    /// A fresh string over `bytes` that were validated: tagged `Utf8` where
    /// they are valid UTF-8 and `Binary` where they are not.
    pub open spec fn utf8(bytes: Seq<u8>) -> StringModel {
        StringModel::of_bytes(bytes, Encoding::Utf8.normalized(bytes))
    }

    /// An empty string with room for `capacity` bytes.
    pub open spec fn empty(capacity: nat, encoding: Encoding) -> StringModel {
        StringModel { bytes: Seq::empty(), capacity, encoding }
    }

    /// This string after its bytes were changed in place to `bytes`: the room
    /// grows where it must, and the tag is kept or gives way to `Binary`.
    pub open spec fn with_bytes(self, bytes: Seq<u8>) -> StringModel {
        StringModel {
            bytes,
            capacity: if bytes.len() > self.capacity {
                bytes.len()
            } else {
                self.capacity
            },
            encoding: self.encoding.normalized(bytes),
        }
    }

    /// This string with one byte appended.
    pub open spec fn pushed(self, byte: u8) -> StringModel {
        self.with_bytes(self.bytes.push(byte))
    }

    /// This string with `more` appended.
    pub open spec fn extended(self, more: Seq<u8>) -> StringModel {
        self.with_bytes(self.bytes + more)
    }

    /// This string cut down to its first `len` bytes; unchanged where it has
    /// no more than that. The capacity stays.
    pub open spec fn truncated(self, len: nat) -> StringModel {
        if len < self.bytes.len() {
            self.with_bytes(self.bytes.take(len as int))
        } else {
            self
        }
    }

    /// This string with room for `additional` more bytes than it holds.
    pub open spec fn reserved(self, additional: nat) -> StringModel {
        StringModel {
            capacity: if self.bytes.len() + additional > self.capacity {
                self.bytes.len() + additional
            } else {
                self.capacity
            },
            ..self
        }
    }

    /// True when `after` is this string grown in place to `len` bytes: the
    /// bytes that were there stay, the new bytes are there with whatever
    /// they hold, there is room for all of them, and the tag is kept or
    /// gives way to `Binary`.
    pub open spec fn is_grown(self, len: nat, after: StringModel) -> bool {
        &&& after.bytes.len() == len
        &&& after.bytes.take(self.bytes.len() as int) == self.bytes
        &&& after.capacity == if len > self.capacity {
            len
        } else {
            self.capacity
        }
        &&& after.encoding == self.encoding.normalized(after.bytes)
    }

    /// The concatenation of this string and `other`, in a buffer of exactly
    /// the two lengths. The tag is that of the left operand, whatever the
    /// tag and the bytes of the right one.
    pub open spec fn concat(self, other: StringModel) -> StringModel {
        StringModel::of_bytes(self.bytes + other.bytes, self.encoding)
    }

    /// The substring of at most `len` bytes that begins at the signed offset
    /// `beg`, under this string's tag, wherever the cut falls; nothing where
    /// `len` is negative or the offset falls outside the string.
    pub open spec fn substr(self, beg: int, len: int) -> Option<StringModel> {
        if len < 0 {
            None
        } else {
            match start_of(self.bytes.len() as int, beg) {
                None => None,
                Some(start) => {
                    let end = if start + len < self.bytes.len() {
                        start + len
                    } else {
                        self.bytes.len() as int
                    };
                    Some(StringModel::of_bytes(self.bytes.subrange(start, end), self.encoding))
                },
            }
        }
    }

    /// True when the last byte is a NUL.
    pub open spec fn ends_with_nul(self) -> bool {
        self.bytes.len() > 0 && self.bytes.last() == 0
    }

    /// This string as a C string: itself where it ends with a NUL already,
    /// with one NUL appended where it does not.
    pub open spec fn nul_terminated(self) -> StringModel {
        if self.ends_with_nul() {
            self
        } else {
            self.pushed(0)
        }
    }

    /// The integer that this string writes in `base`. An illegal radix is an
    /// error whatever `strict` says; text that is no number is an error under
    /// strict checking and zero without it.
    pub open spec fn to_integer(self, base: int, strict: bool) -> Result<i64, Exception> {
        if !is_legal_radix(base) {
            Err(Exception::IllegalRadix)
        } else {
            match parse_integer(self.bytes, base) {
                Some(value) => Ok(value),
                None => if strict {
                    Err(Exception::InvalidNumber)
                } else {
                    Ok(0i64)
                },
            }
        }
    }
}

/// Ownership of a byte buffer in flight: the data, its length and the room
/// reserved for it. It cannot be copied; handing it on is a move.
pub struct RawParts {
    data: Vec<u8>,
    length: usize,
    capacity: usize,
}

impl RawParts {
    /// The bytes that the parts own.
    pub closed spec fn bytes(&self) -> Seq<u8> {
        self.data@
    }

    /// The length recorded in the parts.
    pub closed spec fn length_spec(&self) -> nat {
        self.length as nat
    }

    /// The capacity recorded in the parts.
    pub closed spec fn capacity_spec(&self) -> nat {
        self.capacity as nat
    }

    /// The parts describe their buffer: the length is that of the data and no
    /// more than the capacity.
    pub open spec fn wf(&self) -> bool {
        self.bytes().len() == self.length_spec() <= self.capacity_spec()
    }

    /// The length recorded in the parts.
    pub fn length(&self) -> (length: usize)
        ensures
            length == self.length_spec(),
    {
        self.length
    }

    /// The capacity recorded in the parts.
    pub fn capacity(&self) -> (capacity: usize)
        ensures
            capacity == self.capacity_spec(),
    {
        self.capacity
    }
}

/// A mutable byte string that knows its encoding.
pub struct NativeString {
    buf: Vec<u8>,
    capacity: usize,
    encoding: Encoding,
}

impl View for NativeString {
    type V = StringModel;

    closed spec fn view(&self) -> StringModel {
        StringModel {
            bytes: self.buf@,
            capacity: self.capacity as nat,
            encoding: self.encoding,
        }
    }
}

impl NativeString {
    /// The invariant of the type, which every constructor establishes and
    /// every method keeps.
    pub open spec fn wf(&self) -> bool {
        self@.wf()
    }

    /// An empty UTF-8 string with room for `capacity` bytes.
    pub fn with_capacity(capacity: usize) -> (string: NativeString)
        requires
            capacity <= isize::MAX,
        ensures
            string.wf(),
            string@ == StringModel::empty(capacity as nat, Encoding::Utf8),
    {
        NativeString::with_capacity_and_encoding(capacity, Encoding::Utf8)
    }

    /// An empty string with room for `capacity` bytes and the given tag.
    pub fn with_capacity_and_encoding(capacity: usize, encoding: Encoding) -> (string:
        NativeString)
        requires
            capacity <= isize::MAX,
        ensures
            string.wf(),
            string@ == StringModel::empty(capacity as nat, encoding),
    {
        NativeString { buf: Vec::with_capacity(capacity), capacity, encoding }
    }

    /// A string over `bytes`, tagged `Utf8` where they are valid UTF-8 and
    /// `Binary` where they are not.
    pub fn utf8(bytes: Vec<u8>) -> (string: NativeString)
        ensures
            string.wf(),
            string@ == StringModel::utf8(bytes@),
    {
        let encoding = normalize(Encoding::Utf8, bytes.as_slice());
        NativeString::with_bytes_and_encoding(bytes, encoding)
    }

    /// A string over `bytes` with the `Binary` tag.
    pub fn binary(bytes: Vec<u8>) -> (string: NativeString)
        ensures
            string.wf(),
            string@ == StringModel::of_bytes(bytes@, Encoding::Binary),
    {
        NativeString::with_bytes_and_encoding(bytes, Encoding::Binary)
    }

    /// A string over `bytes` with the tag asked for. The bytes are not
    /// looked at.
    pub fn with_bytes_and_encoding(bytes: Vec<u8>, encoding: Encoding) -> (string:
        NativeString)
        ensures
            string.wf(),
            string@ == StringModel::of_bytes(bytes@, encoding),
    {
        let capacity = bytes.len();
        NativeString { buf: bytes, capacity, encoding }
    }

    /// The number of bytes.
    pub fn len(&self) -> (len: usize)
        ensures
            len == self@.bytes.len(),
    {
        self.buf.len()
    }

    /// Tells whether the string holds no byte.
    pub fn is_empty(&self) -> (empty: bool)
        ensures
            empty == (self@.bytes.len() == 0),
    {
        self.buf.len() == 0
    }

    /// The room reserved for bytes.
    pub fn capacity(&self) -> (capacity: usize)
        ensures
            capacity == self@.capacity,
    {
        self.capacity
    }

    /// The encoding tag.
    pub fn encoding(&self) -> (encoding: Encoding)
        ensures
            encoding == self@.encoding,
    {
        self.encoding
    }

    /// The bytes.
    pub fn as_slice(&self) -> (bytes: &[u8])
        ensures
            bytes@ == self@.bytes,
    {
        self.buf.as_slice()
    }

    /// The last byte, if there is one.
    pub fn last(&self) -> (byte: Option<u8>)
        ensures
            self@.bytes.len() == 0 ==> byte is None,
            self@.bytes.len() > 0 ==> byte == Some(self@.bytes.last()),
    {
        let len = self.buf.len();
        if len == 0 {
            None
        } else {
            Some(self.buf[len - 1])
        }
    }

    /// The bytes from `offset` to the end; nothing where `offset` lies
    /// beyond the end.
    pub fn get_from(&self, offset: usize) -> (tail: Option<&[u8]>)
        ensures
            offset > self@.bytes.len() ==> tail is None,
            offset <= self@.bytes.len() ==> tail is Some && tail->0@ == self@.bytes.subrange(
                offset as int,
                self@.bytes.len() as int,
            ),
    {
        if offset <= self.buf.len() {
            Some(slice_subrange(self.buf.as_slice(), offset, self.buf.len()))
        } else {
            None
        }
    }

    /// Appends one byte in place.
    pub fn push_byte(&mut self, byte: u8)
        requires
            old(self).wf(),
        ensures
            final(self).wf(),
            final(self)@ == old(self)@.pushed(byte),
    {
        self.buf.push(byte);
        if self.buf.len() > self.capacity {
            self.capacity = self.buf.len();
        }
        self.encoding = normalize(self.encoding, self.buf.as_slice());
    }

    /// Appends `more` in place.
    pub fn extend_from_slice(&mut self, more: &[u8])
        requires
            old(self).wf(),
        ensures
            final(self).wf(),
            final(self)@ == old(self)@.extended(more@),
    {
        let ghost before = self.buf@;
        let mut at: usize = 0;
        while at < more.len()
            invariant
                at <= more.len(),
                self.buf@ == before + more@.take(at as int),
                self.capacity == old(self).capacity,
                self.encoding == old(self).encoding,
            decreases more.len() - at,
        {
            self.buf.push(more[at]);
            proof {
                assert(more@.take(at + 1) =~= more@.take(at as int).push(more@[at as int]));
                assert(self.buf@ =~= before + more@.take(at + 1));
            }
            at += 1;
        }
        proof {
            assert(more@.take(more.len() as int) =~= more@);
        }
        if self.buf.len() > self.capacity {
            self.capacity = self.buf.len();
        }
        self.encoding = normalize(self.encoding, self.buf.as_slice());
    }

    /// Cuts the string down to its first `len` bytes in place. The capacity
    /// stays as it is.
    pub fn truncate(&mut self, len: usize)
        requires
            old(self).wf(),
        ensures
            final(self).wf(),
            final(self)@ == old(self)@.truncated(len as nat),
    {
        if len < self.buf.len() {
            self.buf.truncate(len);
            assert(self.buf@ =~= old(self).buf@.take(len as int));
            self.encoding = normalize(self.encoding, self.buf.as_slice());
        }
    }

    /// Records that room for `additional` more bytes was reserved.
    pub fn note_reserved(&mut self, additional: usize)
        requires
            old(self).wf(),
            old(self)@.bytes.len() + additional <= usize::MAX,
        ensures
            final(self).wf(),
            final(self)@ == old(self)@.reserved(additional as nat),
    {
        let wanted = self.buf.len() + additional;
        if wanted > self.capacity {
            self.capacity = wanted;
        }
    }

    /// Reserves room for `additional` more bytes. Room that is there already
    /// is granted without a question. No buffer is larger than `isize::MAX`
    /// bytes: a request beyond that fails. Whether the allocator grants
    /// another request is not for this library to say: on success the room
    /// is there, on failure the string is as it was.
    pub fn try_reserve(&mut self, additional: usize) -> (reserved: Result<(), Exception>)
        requires
            old(self).wf(),
        ensures
            final(self).wf(),
            reserved is Ok ==> final(self)@ == old(self)@.reserved(additional as nat),
            reserved is Err ==> reserved == Err::<(), Exception>(Exception::OutOfMemory)
                && final(self)@ == old(self)@,
            old(self)@.bytes.len() + additional > isize::MAX ==> reserved is Err,
            old(self)@.bytes.len() + additional <= isize::MAX && old(self)@.bytes.len()
                + additional <= old(self)@.capacity ==> reserved is Ok,
    {
        let most: usize = isize::MAX as usize;
        if self.buf.len() > most || additional > most - self.buf.len() {
            return Err(Exception::OutOfMemory);
        }
        if additional <= self.capacity - self.buf.len() {
            return Ok(());
        }
        match self.buf.try_reserve(additional) {
            Ok(_) => {
                self.note_reserved(additional);
                Ok(())
            },
            Err(_) => Err(Exception::OutOfMemory),
        }
    }

    /// Resizes in place. A length of no more than the present one truncates
    /// and keeps the capacity. A longer one reserves the room that is
    /// missing and makes the string that long: the bytes that were there
    /// stay, and the new ones are there with whatever they hold. Growing
    /// within the room that is there succeeds; growing beyond `isize::MAX`
    /// bytes fails; whether growing succeeds otherwise is the allocator's to
    /// say. A string that did not grow is as it was.
    pub fn resize(&mut self, len: usize) -> (resized: Result<(), Exception>)
        requires
            old(self).wf(),
        ensures
            final(self).wf(),
            len <= old(self)@.bytes.len() ==> resized is Ok && final(self)@ == old(
                self,
            )@.truncated(len as nat),
            len > old(self)@.bytes.len() && resized is Ok ==> old(self)@.is_grown(
                len as nat,
                final(self)@,
            ),
            resized is Err ==> resized == Err::<(), Exception>(Exception::OutOfMemory)
                && final(self)@ == old(self)@,
            len > old(self)@.bytes.len() && len > isize::MAX ==> resized is Err,
            old(self)@.bytes.len() < len <= old(self)@.capacity && len <= isize::MAX
                ==> resized is Ok,
    {
        let present = self.buf.len();
        if len > present {
            match self.try_reserve(len - present) {
                Ok(_) => {
                    self.buf.resize(len, 0);
                    assert(self.buf@.take(present as int) =~= self.buf@.subrange(
                        0,
                        present as int,
                    ));
                    self.encoding = normalize(self.encoding, self.buf.as_slice());
                    Ok(())
                },
                Err(error) => Err(error),
            }
        } else {
            self.truncate(len);
            Ok(())
        }
    }

    /// A new string that holds this one's bytes and then `other`'s, in a
    /// buffer of the two lengths, under this one's tag.
    pub fn concat(&self, other: &NativeString) -> (sum: NativeString)
        requires
            self.wf(),
            other.wf(),
            self@.bytes.len() + other@.bytes.len() <= isize::MAX,
        ensures
            sum.wf(),
            sum@ == self@.concat(other@),
    {
        let total = self.buf.len() + other.buf.len();
        let mut bytes: Vec<u8> = Vec::with_capacity(total);
        let mut at: usize = 0;
        while at < self.buf.len()
            invariant
                at <= self.buf.len(),
                bytes@ == self.buf@.take(at as int),
            decreases self.buf.len() - at,
        {
            bytes.push(self.buf[at]);
            proof {
                assert(bytes@ =~= self.buf@.take(at + 1));
            }
            at += 1;
        }
        let mut at: usize = 0;
        while at < other.buf.len()
            invariant
                at <= other.buf.len(),
                bytes@ == self.buf@ + other.buf@.take(at as int),
            decreases other.buf.len() - at,
        {
            proof {
                assert(self.buf@.take(self.buf.len() as int) =~= self.buf@);
            }
            bytes.push(other.buf[at]);
            proof {
                assert(bytes@ =~= self.buf@ + other.buf@.take(at + 1));
            }
            at += 1;
        }
        proof {
            assert(self.buf@.take(self.buf.len() as int) =~= self.buf@);
            assert(other.buf@.take(other.buf.len() as int) =~= other.buf@);
        }
        NativeString { buf: bytes, capacity: total, encoding: self.encoding }
    }

    /// The substring of at most `len` bytes that begins at the signed offset
    /// `beg`.
    pub fn substr(&self, beg: i64, len: i64) -> (sub: Option<NativeString>)
        requires
            self.wf(),
        ensures
            match sub {
                Some(string) => string.wf() && self@.substr(beg as int, len as int) == Some(
                    string@,
                ),
                None => self@.substr(beg as int, len as int) is None,
            },
    {
        if len < 0 {
            return None;
        }
        let total = self.buf.len();
        let start = match resolve_offset(total, beg) {
            Some(start) => start,
            None => {
                return None;
            },
        };
        let room = total - start;
        let end = if (len as u64) < (room as u64) {
            start + len as usize
        } else {
            total
        };
        let bytes = slice_to_vec(slice_subrange(self.buf.as_slice(), start, end));
        Some(NativeString::with_bytes_and_encoding(bytes, self.encoding))
    }

    /// A copy of the bytes and the tag, in a buffer of its own.
    pub fn dup(&self) -> (copy: NativeString)
        requires
            self.wf(),
        ensures
            copy.wf(),
            copy@ == StringModel::of_bytes(self@.bytes, self@.encoding),
    {
        let bytes = slice_to_vec(self.buf.as_slice());
        NativeString { buf: bytes, capacity: self.buf.len(), encoding: self.encoding }
    }

    /// Index search for `needle` from the signed `offset` on.
    pub fn index(&self, needle: &[u8], offset: i64) -> (found: Option<usize>)
        ensures
            position(found) == index_of(self@.bytes, needle@, offset as int),
    {
        index(self.buf.as_slice(), needle, offset)
    }

    /// Orders this string against `other` by their bytes alone.
    pub fn compare(&self, other: &NativeString) -> (order: i32)
        ensures
            order == lex_compare(self@.bytes, other@.bytes),
    {
        compare(self.buf.as_slice(), other.buf.as_slice())
    }

    /// Tells whether this string and `other` hold the same bytes, whatever
    /// their tags.
    pub fn equals(&self, other: &NativeString) -> (same: bool)
        ensures
            same == (self@.bytes == other@.bytes),
    {
        equal(self.buf.as_slice(), other.buf.as_slice())
    }

    /// Makes the string end with a NUL, for use as a C string. A string that
    /// ends with one already is left alone.
    pub fn nul_terminate(&mut self) -> (appended: bool)
        requires
            old(self).wf(),
        ensures
            final(self).wf(),
            final(self)@ == old(self)@.nul_terminated(),
            appended == !old(self)@.ends_with_nul(),
    {
        match self.last() {
            Some(0) => false,
            _ => {
                self.push_byte(0);
                true
            },
        }
    }

    /// Reads the string as an integer written in `base`.
    pub fn to_integer(&self, base: i64, strict: bool) -> (number: Result<i64, Exception>)
        ensures
            number == self@.to_integer(base as int, strict),
    {
        let radix = match check_radix(base) {
            Ok(radix) => radix,
            Err(error) => {
                return Err(error);
            },
        };
        match parse_radix(self.buf.as_slice(), radix) {
            Some(value) => Ok(value),
            None => if strict {
                Err(Exception::InvalidNumber)
            } else {
                Ok(0)
            },
        }
    }

    /// The digits of `value`, which is not negative, in `base`, as a UTF-8
    /// string.
    pub fn from_integer(value: i64, base: i64) -> (digits: Result<NativeString, Exception>)
        requires
            value >= 0,
        ensures
            !is_legal_radix(base as int) ==> digits is Err && digits->Err_0
                == Exception::IllegalRadix,
            is_legal_radix(base as int) ==> digits is Ok && digits->Ok_0.wf() && digits->Ok_0@
                == (StringModel {
                bytes: render(value as int, base as int),
                capacity: render(value as int, base as int).len(),
                encoding: Encoding::Utf8,
            }),
    {
        match render_radix(value, base) {
            Ok(bytes) => {
                proof {
                    lemma_render_is_digits(value as int, base as int);
                    lemma_ascii_is_utf8(bytes@);
                }
                Ok(NativeString::utf8(bytes))
            },
            Err(error) => Err(error),
        }
    }

    /// Gives up the buffer and leaves this string empty, with no room.
    pub fn take(&mut self) -> (parts: RawParts)
        requires
            old(self).wf(),
        ensures
            final(self).wf(),
            final(self)@ == StringModel::empty(0, old(self)@.encoding),
            parts.wf(),
            parts.bytes() == old(self)@.bytes,
            parts.capacity_spec() == old(self)@.capacity,
    {
        let mut data: Vec<u8> = Vec::new();
        core::mem::swap(&mut data, &mut self.buf);
        let capacity = self.capacity;
        self.capacity = 0;
        let length = data.len();
        RawParts { data, length, capacity }
    }

    /// Gives up the buffer for good.
    pub fn into_raw_parts(self) -> (parts: RawParts)
        requires
            self.wf(),
        ensures
            parts.wf(),
            parts.bytes() == self@.bytes,
            parts.capacity_spec() == self@.capacity,
    {
        let length = self.buf.len();
        RawParts { data: self.buf, length, capacity: self.capacity }
    }

    /// Takes a buffer back into a string with the tag asked for. The bytes
    /// are not looked at.
    pub fn from_raw_parts(parts: RawParts, encoding: Encoding) -> (string: NativeString)
        requires
            parts.wf(),
        ensures
            string.wf(),
            string@ == (StringModel {
                bytes: parts.bytes(),
                capacity: parts.capacity_spec(),
                encoding,
            }),
    {
        NativeString { buf: parts.data, capacity: parts.capacity, encoding }
    }
}

/// Asking for the C string twice is asking once: after the first time the
/// string ends with a NUL, the second time changes nothing, and no more than
/// one byte was ever appended.
pub proof fn lemma_nul_terminated_idempotent(string: StringModel)
    ensures
        string.nul_terminated().ends_with_nul(),
        string.nul_terminated().nul_terminated() == string.nul_terminated(),
        string.ends_with_nul() ==> string.nul_terminated() == string,
        !string.ends_with_nul() ==> string.nul_terminated().bytes == string.bytes.push(0),
{
}

/// Appending the NUL of a C string keeps the encoding tag of a string whose
/// tag promises no more than its bytes hold.
pub proof fn lemma_nul_keeps_encoding(string: StringModel)
    requires
        string.has_valid_encoding(),
    ensures
        string.nul_terminated().encoding == string.encoding,
{
    if !string.ends_with_nul() && string.encoding == Encoding::Utf8 {
        assert(string.bytes.push(0) =~= string.bytes + seq![0u8]);
        lemma_utf8_append(string.bytes, seq![0u8]);
        lemma_ascii_is_utf8(seq![0u8]);
    }
}

/// Resizing below the length truncates and keeps the capacity. Growing makes
/// the string as long as asked, keeps the bytes that were there, and gives
/// room for at least what was asked beyond the length.
pub proof fn lemma_resize(string: StringModel, len: nat, grown: StringModel)
    requires
        string.wf(),
    ensures
        len < string.bytes.len() ==> string.truncated(len).capacity == string.capacity
            && string.truncated(len).bytes == string.bytes.take(len as int),
        len > string.bytes.len() && string.is_grown(len, grown) ==> {
            &&& grown.bytes.len() == len
            &&& forall|i: int| 0 <= i < string.bytes.len() ==> grown.bytes[i] == string.bytes[i]
            &&& grown.capacity >= string.capacity
            &&& grown.capacity - string.bytes.len() >= len - string.bytes.len()
            &&& len <= usize::MAX ==> grown.wf()
        },
{
    if len > string.bytes.len() && string.is_grown(len, grown) {
        assert forall|i: int| 0 <= i < string.bytes.len() implies grown.bytes[i]
            == string.bytes[i] by {
            assert(grown.bytes.take(string.bytes.len() as int)[i] == grown.bytes[i]);
        }
    }
}

/// A change in place leaves a tag that promises no more than the bytes
/// hold: a `Utf8` tag is kept over valid UTF-8 and gives way to `Binary`
/// over anything else.
pub proof fn lemma_change_in_place_validates(string: StringModel, bytes: Seq<u8>)
    ensures
        string.with_bytes(bytes).has_valid_encoding(),
        string.encoding == Encoding::Binary ==> string.with_bytes(bytes).encoding
            == Encoding::Binary,
        valid_utf8(bytes) ==> string.with_bytes(bytes).encoding == string.encoding,
        StringModel::utf8(bytes).has_valid_encoding(),
{
}

/// The substring of length one at offset `-1` is the last byte of a string
/// that is not empty.
pub proof fn lemma_substr_last_byte(string: StringModel)
    requires
        string.bytes.len() > 0,
    ensures
        string.substr(-1, 1) is Some,
        string.substr(-1, 1).unwrap().bytes == seq![string.bytes.last()],
{
    let len = string.bytes.len() as int;
    assert(string.bytes.subrange(len - 1, len) =~= seq![string.bytes.last()]);
}

/// A substring that begins beyond the end of the string is nothing.
pub proof fn lemma_substr_past_end(string: StringModel, beg: int, len: int)
    requires
        beg > string.bytes.len(),
    ensures
        string.substr(beg, len) is None,
{
}

/// The concatenation has the encoding of its left operand, whatever the
/// encoding and the bytes of the right one.
pub proof fn lemma_concat_encoding(left: StringModel, right: StringModel)
    ensures
        left.concat(right).encoding == left.encoding,
        left.concat(right).bytes == left.bytes + right.bytes,
{
}

/// A substring has the encoding of its source, wherever it is cut.
pub proof fn lemma_substr_encoding(string: StringModel, beg: int, len: int)
    ensures
        string.substr(beg, len) matches Some(sub) ==> sub.encoding == string.encoding,
{
}

/// A string is read as text and then as a number: bytes that are not valid
/// UTF-8 are no number in any radix, so that reading the bytes directly is
/// reading the text.
pub proof fn lemma_to_integer_reads_text(string: StringModel, base: int, strict: bool)
    requires
        is_legal_radix(base),
        !valid_utf8(string.bytes),
    ensures
        string.to_integer(base, strict) == if strict {
            Err::<i64, Exception>(Exception::InvalidNumber)
        } else {
            Ok::<i64, Exception>(0i64)
        },
{
    if parse_integer(string.bytes, base) is Some {
        lemma_number_is_ascii(string.bytes, base);
        lemma_ascii_is_utf8(string.bytes);
    }
}

/// The operations of the string engine keep the invariant of strings.
pub proof fn lemma_operations_keep_wf(string: StringModel, other: StringModel, more: Seq<u8>)
    requires
        string.wf(),
        other.wf(),
        string.bytes.len() + more.len() <= usize::MAX,
        string.bytes.len() + other.bytes.len() <= usize::MAX,
    ensures
        string.extended(more).wf(),
        string.concat(other).wf(),
        forall|len: nat| (#[trigger] string.truncated(len)).wf(),
        forall|beg: int, len: int|
            (#[trigger] string.substr(beg, len)) matches Some(sub) ==> sub.wf(),
        string.bytes.len() < usize::MAX ==> string.nul_terminated().wf(),
{
}

} // verus!
