//! The connection parameters that the two parties exchange over the control
//! channel, and their form on the wire.

use crate::byte_order;
use vstd::arithmetic::div_mod;
use vstd::arithmetic::mul;
use vstd::arithmetic::power;
use vstd::endian::Endian;
use vstd::prelude::*;

verus! {

/// The TCP port of the control channel.
pub const CONTROL_PORT: u16 = 9999;

/// The number of bytes that the fields of a [`ConnInfo`] occupy, one directly
/// after another.
pub const FIELDS_SIZE: usize = 19;

/// The parameters of one end of an RDMA connection, exchanged over the TCP
/// control channel.
#[derive(Debug, Clone, Copy, PartialEq, Eq, Structural)]
pub struct ConnInfo {
    /// The number of the queue pair.
    pub qp_num: u32,
    /// The key by which the peer may access the registered memory.
    pub rkey: u32,
    /// The address of the registered memory.
    pub buf_addr: u64,
    /// The local identifier of the port.
    pub lid: u16,
    /// The number of the port.
    pub port: u8,
}

/// `n` zero bytes.
pub open spec fn zeros(n: nat) -> Seq<u8> {
    Seq::new(n, |i: int| 0u8)
}

/// The greater of two numbers.
pub open spec fn greater(a: nat, b: nat) -> nat {
    if a < b {
        b
    } else {
        a
    }
}

/// The alignment of a [`ConnInfo`] on this machine: the greatest among those of
/// its fields.
pub open spec fn host_align() -> nat {
    greater(
        greater(vstd::layout::align_of::<u64>(), vstd::layout::align_of::<u32>()),
        greater(vstd::layout::align_of::<u16>(), vstd::layout::align_of::<u8>()),
    )
}

/// The number of bytes behind the fields of a [`ConnInfo`] that bring its size to
/// a multiple of its alignment: five where the alignment is eight, one where it
/// is four.
pub open spec fn padding(align: nat) -> nat {
    ((align - FIELDS_SIZE as nat % align) as nat % align) as nat
}

/// The size of a [`ConnInfo`] of the given alignment. No field needs padding
/// before it, since each starts at a multiple of its own size.
pub open spec fn size_aligned(align: nat) -> nat {
    FIELDS_SIZE as nat + padding(align)
}

proof fn lemma_alignment_divides(align: nat, size: nat)
    requires
        align > 0,
        size > 0,
        size % align == 0,
    ensures
        align <= size,
{
    if align > size {
        div_mod::lemma_small_mod(size, align);
    }
}

proof fn lemma_host_align()
    ensures
        vstd::layout::align_of::<u64>() <= 8,
        vstd::layout::align_of::<u32>() <= 4,
        vstd::layout::align_of::<u16>() <= 2,
        vstd::layout::align_of::<u8>() <= 1,
        1 <= host_align() <= 8,
        padding(host_align()) < host_align(),
{
    broadcast use {
        vstd::layout::layout_of_primitives,
        vstd::layout::align_properties,
        vstd::layout::align_nonzero,
    };

    lemma_alignment_divides(vstd::layout::align_of::<u64>(), vstd::layout::size_of::<u64>());
    lemma_alignment_divides(vstd::layout::align_of::<u32>(), vstd::layout::size_of::<u32>());
    lemma_alignment_divides(vstd::layout::align_of::<u16>(), vstd::layout::size_of::<u16>());
    lemma_alignment_divides(vstd::layout::align_of::<u8>(), vstd::layout::size_of::<u8>());
}

fn host_padding() -> (n: usize)
    ensures
        n == padding(host_align()),
        n < 8,
{
    proof {
        lemma_host_align();
    }
    let mut align: usize = core::mem::align_of::<u64>();
    if align < core::mem::align_of::<u32>() {
        align = core::mem::align_of::<u32>();
    }
    if align < core::mem::align_of::<u16>() {
        align = core::mem::align_of::<u16>();
    }
    if align < core::mem::align_of::<u8>() {
        align = core::mem::align_of::<u8>();
    }
    (align - FIELDS_SIZE % align) % align
}

/// The size in memory, and on the control channel, of a [`ConnInfo`] on this
/// machine: 24 bytes where `u64` is aligned to eight bytes, 20 where it is
/// aligned to four.
pub fn conn_info_size() -> (size: usize)
    ensures
        size == size_aligned(host_align()),
        size >= FIELDS_SIZE,
        vstd::layout::align_of::<u64>() == 8 ==> size == 24,
        vstd::layout::align_of::<u64>() == 4 ==> size == 20,
{
    proof {
        lemma_host_align();
        assert(padding(8) == 5);
        assert(padding(4) == 1);
    }
    FIELDS_SIZE + host_padding()
}

impl ConnInfo {
    /// The value that a machine of the given order makes of this one when it
    /// converts every field to or from big-endian order.
    pub open spec fn be_converted(self, order: Endian) -> ConnInfo {
        ConnInfo {
            qp_num: byte_order::be_converted(order, self.qp_num as int, 4) as u32,
            rkey: byte_order::be_converted(order, self.rkey as int, 4) as u32,
            buf_addr: byte_order::be_converted(order, self.buf_addr as int, 8) as u64,
            lid: byte_order::be_converted(order, self.lid as int, 2) as u16,
            port: self.port,
        }
    }

    /// The bytes of this value in the memory of a machine of the given order that
    /// gives it the given alignment: the fields one after another, then the
    /// padding, which carries nothing and is zero.
    pub open spec fn layout(self, order: Endian, align: nat) -> Seq<u8> {
        byte_order::native_bytes(order, self.qp_num as int, 4)
            + byte_order::native_bytes(order, self.rkey as int, 4)
            + byte_order::native_bytes(order, self.buf_addr as int, 8)
            + byte_order::native_bytes(order, self.lid as int, 2)
            + seq![self.port] + zeros(padding(align))
    }

    /// The value that a machine of the given order has in memory where the
    /// bytes are `s`.
    pub open spec fn laid_out_in(s: Seq<u8>, order: Endian) -> ConnInfo {
        ConnInfo {
            qp_num: byte_order::native_value(order, s.subrange(0, 4)) as u32,
            rkey: byte_order::native_value(order, s.subrange(4, 8)) as u32,
            buf_addr: byte_order::native_value(order, s.subrange(8, 16)) as u64,
            lid: byte_order::native_value(order, s.subrange(16, 18)) as u16,
            port: s[18],
        }
    }

    /// The form of this value on the control channel when a machine that gives it
    /// the given alignment sends it: every field in big-endian order, then the
    /// padding.
    pub open spec fn wire(self, align: nat) -> Seq<u8> {
        self.layout(Endian::Big, align)
    }

    /// The value that `s` carries on the control channel.
    pub open spec fn carried_by(s: Seq<u8>) -> ConnInfo {
        ConnInfo::laid_out_in(s, Endian::Big)
    }

    /// Converts every field to network order, for an exchange between machines
    /// of different architectures.
    pub fn to_be(&self) -> (r: ConnInfo)
        ensures
            r == self.be_converted(vstd::endian::endianness()),
            r.qp_num == byte_order::be_converted(vstd::endian::endianness(), self.qp_num as int, 4),
            r.rkey == byte_order::be_converted(vstd::endian::endianness(), self.rkey as int, 4),
            r.buf_addr == byte_order::be_converted(
                vstd::endian::endianness(),
                self.buf_addr as int,
                8,
            ),
            r.lid == byte_order::be_converted(vstd::endian::endianness(), self.lid as int, 2),
            r.port == self.port,
    {
        proof {
            law_fields_converted(*self, vstd::endian::endianness());
        }
        ConnInfo {
            qp_num: self.qp_num.to_be(),
            rkey: self.rkey.to_be(),
            buf_addr: self.buf_addr.to_be(),
            lid: self.lid.to_be(),
            port: self.port,
        }
    }

    /// Converts every field from network order to the order of this machine.
    pub fn from_be(&self) -> (r: ConnInfo)
        ensures
            r == self.be_converted(vstd::endian::endianness()),
            r.qp_num == byte_order::be_converted(vstd::endian::endianness(), self.qp_num as int, 4),
            r.rkey == byte_order::be_converted(vstd::endian::endianness(), self.rkey as int, 4),
            r.buf_addr == byte_order::be_converted(
                vstd::endian::endianness(),
                self.buf_addr as int,
                8,
            ),
            r.lid == byte_order::be_converted(vstd::endian::endianness(), self.lid as int, 2),
            r.port == self.port,
    {
        proof {
            law_fields_converted(*self, vstd::endian::endianness());
        }
        ConnInfo {
            qp_num: u32::from_be(self.qp_num),
            rkey: u32::from_be(self.rkey),
            buf_addr: u64::from_be(self.buf_addr),
            lid: u16::from_be(self.lid),
            port: self.port,
        }
    }

    /// The bytes of this value as this machine keeps it in memory. The bytes
    /// behind the last field, which carry nothing, are zero.
    pub fn as_bytes(&self) -> (bytes: Vec<u8>)
        ensures
            bytes@ == self.layout(vstd::endian::endianness(), host_align()),
            bytes@.len() == size_aligned(host_align()),
            bytes@.subrange(0, 4) == byte_order::native_bytes(
                vstd::endian::endianness(),
                self.qp_num as int,
                4,
            ),
            bytes@.subrange(4, 8) == byte_order::native_bytes(
                vstd::endian::endianness(),
                self.rkey as int,
                4,
            ),
            bytes@.subrange(8, 16) == byte_order::native_bytes(
                vstd::endian::endianness(),
                self.buf_addr as int,
                8,
            ),
            bytes@.subrange(16, 18) == byte_order::native_bytes(
                vstd::endian::endianness(),
                self.lid as int,
                2,
            ),
            bytes@[18] == self.port,
            forall|i: int| 19 <= i < bytes@.len() ==> bytes@[i] == 0,
    {
        let order = byte_order::host_order();
        let mut bytes: Vec<u8> = Vec::new();
        byte_order::push_native(&mut bytes, &order, self.qp_num as u64, 4);
        byte_order::push_native(&mut bytes, &order, self.rkey as u64, 4);
        byte_order::push_native(&mut bytes, &order, self.buf_addr, 8);
        byte_order::push_native(&mut bytes, &order, self.lid as u64, 2);
        bytes.push(self.port);
        proof {
            lemma_layout_len(*self, order, host_align());
        }
        let ghost fields = bytes@;
        let size: usize = conn_info_size();
        bytes.resize(size, 0);
        proof {
            assert(fields + zeros(padding(host_align())) =~= self.layout(order, host_align()));
            assert(bytes@ =~= fields + zeros(padding(host_align())));
            law_layout_by_offset(*self, order, host_align());
        }
        bytes
    }

    /// Overwrites this value with the one whose bytes, as this machine keeps
    /// them in memory, `buf` starts with. Bytes behind the fields are not read.
    pub fn from_bytes(&mut self, buf: &[u8])
        requires
            buf@.len() >= FIELDS_SIZE,
        ensures
            *final(self) == ConnInfo::laid_out_in(buf@, vstd::endian::endianness()),
            final(self).qp_num == byte_order::native_value(
                vstd::endian::endianness(),
                buf@.subrange(0, 4),
            ),
            final(self).rkey == byte_order::native_value(
                vstd::endian::endianness(),
                buf@.subrange(4, 8),
            ),
            final(self).buf_addr == byte_order::native_value(
                vstd::endian::endianness(),
                buf@.subrange(8, 16),
            ),
            final(self).lid == byte_order::native_value(
                vstd::endian::endianness(),
                buf@.subrange(16, 18),
            ),
            final(self).port == buf@[18],
    {
        let order = byte_order::host_order();
        proof {
            lemma_field_ranges(buf@, order);
        }
        self.qp_num = byte_order::read_native(buf, &order, 0, 4) as u32;
        self.rkey = byte_order::read_native(buf, &order, 4, 4) as u32;
        self.buf_addr = byte_order::read_native(buf, &order, 8, 8);
        self.lid = byte_order::read_native(buf, &order, 16, 2) as u16;
        self.port = buf[18];
    }

    /// The bytes that are sent over the control channel for this value. They do
    /// not depend on the byte order of this machine.
    pub fn to_wire(&self) -> (bytes: Vec<u8>)
        ensures
            bytes@ == self.wire(host_align()),
            bytes@.len() == size_aligned(host_align()),
            bytes@.subrange(0, 4) == byte_order::native_bytes(Endian::Big, self.qp_num as int, 4),
            bytes@.subrange(4, 8) == byte_order::native_bytes(Endian::Big, self.rkey as int, 4),
            bytes@.subrange(8, 16) == byte_order::native_bytes(
                Endian::Big,
                self.buf_addr as int,
                8,
            ),
            bytes@.subrange(16, 18) == byte_order::native_bytes(Endian::Big, self.lid as int, 2),
            bytes@[18] == self.port,
    {
        proof {
            law_layout_by_offset(*self, Endian::Big, host_align());
            lemma_wire_form(*self, vstd::endian::endianness(), host_align());
        }
        self.to_be().as_bytes()
    }

    /// The value that bytes received over the control channel carry.
    pub fn from_wire(buf: &[u8]) -> (info: ConnInfo)
        requires
            buf@.len() >= FIELDS_SIZE,
        ensures
            info == ConnInfo::carried_by(buf@),
            info.qp_num == byte_order::native_value(Endian::Big, buf@.subrange(0, 4)),
            info.rkey == byte_order::native_value(Endian::Big, buf@.subrange(4, 8)),
            info.buf_addr == byte_order::native_value(Endian::Big, buf@.subrange(8, 16)),
            info.lid == byte_order::native_value(Endian::Big, buf@.subrange(16, 18)),
            info.port == buf@[18],
    {
        let mut info = ConnInfo { qp_num: 0, rkey: 0, buf_addr: 0, lid: 0, port: 0 };
        info.from_bytes(buf);
        proof {
            lemma_carried(buf@, vstd::endian::endianness());
            lemma_field_ranges(buf@, Endian::Big);
        }
        info.from_be()
    }
}

proof fn lemma_layout_len(info: ConnInfo, order: Endian, align: nat)
    ensures
        info.layout(order, align).len() == size_aligned(align),
{
    byte_order::lemma_native_len(order, info.qp_num as int, 4);
    byte_order::lemma_native_len(order, info.rkey as int, 4);
    byte_order::lemma_native_len(order, info.buf_addr as int, 8);
    byte_order::lemma_native_len(order, info.lid as int, 2);
}

/// The numbers that a machine reads from the places of the fields fit the fields.
proof fn lemma_field_ranges(s: Seq<u8>, order: Endian)
    requires
        s.len() >= FIELDS_SIZE,
    ensures
        0 <= byte_order::native_value(order, s.subrange(0, 4)) <= u32::MAX,
        0 <= byte_order::native_value(order, s.subrange(4, 8)) <= u32::MAX,
        0 <= byte_order::native_value(order, s.subrange(8, 16)) <= u64::MAX,
        0 <= byte_order::native_value(order, s.subrange(16, 18)) <= u16::MAX,
{
    byte_order::lemma_byte_ranges();
    byte_order::lemma_native_value_range(order, s.subrange(0, 4));
    byte_order::lemma_native_value_range(order, s.subrange(4, 8));
    byte_order::lemma_native_value_range(order, s.subrange(8, 16));
    byte_order::lemma_native_value_range(order, s.subrange(16, 18));
}

/// Converting a value to network order is undone by converting it again, and
/// leaves each field as its big-endian digits in memory.
proof fn lemma_fields_converted(info: ConnInfo, order: Endian)
    ensures
        ({
            let be = info.be_converted(order);
            &&& be.be_converted(order) == info
            &&& byte_order::native_bytes(order, be.qp_num as int, 4) == byte_order::be_digits(
                info.qp_num as int,
                4,
            )
            &&& byte_order::native_bytes(order, be.rkey as int, 4) == byte_order::be_digits(
                info.rkey as int,
                4,
            )
            &&& byte_order::native_bytes(order, be.buf_addr as int, 8) == byte_order::be_digits(
                info.buf_addr as int,
                8,
            )
            &&& byte_order::native_bytes(order, be.lid as int, 2) == byte_order::be_digits(
                info.lid as int,
                2,
            )
        }),
{
    byte_order::lemma_byte_ranges();
    byte_order::lemma_be_converted(order, info.qp_num as int, 4);
    byte_order::lemma_be_converted(order, info.rkey as int, 4);
    byte_order::lemma_be_converted(order, info.buf_addr as int, 8);
    byte_order::lemma_be_converted(order, info.lid as int, 2);
}

/// Converting a value to network order and back on one machine gives the value,
/// and so does converting it from network order and back.
pub proof fn law_be_conversion_undone(info: ConnInfo, order: Endian)
    ensures
        info.be_converted(order).be_converted(order) == info,
{
    lemma_fields_converted(info, order);
}

/// What a machine has in memory after it converted a value to network order is
/// the wire form of the value, whatever the order of the machine.
pub proof fn lemma_wire_form(info: ConnInfo, order: Endian, align: nat)
    ensures
        info.be_converted(order).layout(order, align) == info.wire(align),
{
    lemma_fields_converted(info, order);
}

/// What a machine has after it read a value from memory and converted it from
/// network order is the value that the bytes carry, whatever the order of the
/// machine.
pub proof fn lemma_carried(s: Seq<u8>, order: Endian)
    requires
        s.len() >= FIELDS_SIZE,
    ensures
        ConnInfo::laid_out_in(s, order).be_converted(order) == ConnInfo::carried_by(s),
{
    lemma_field_ranges(s, order);
    byte_order::lemma_be_converted_value(order, s.subrange(0, 4));
    byte_order::lemma_be_converted_value(order, s.subrange(4, 8));
    byte_order::lemma_be_converted_value(order, s.subrange(8, 16));
    byte_order::lemma_be_converted_value(order, s.subrange(16, 18));
}

/// A machine reads from memory the value that it laid out there, whatever follows
/// it and however much of the padding is there to read.
pub proof fn law_layout_read_back(info: ConnInfo, order: Endian, align: nat, rest: Seq<u8>, n: int)
    requires
        FIELDS_SIZE <= n <= size_aligned(align) + rest.len(),
    ensures
        ConnInfo::laid_out_in((info.layout(order, align) + rest).take(n), order) == info,
{
    let s = (info.layout(order, align) + rest).take(n);
    lemma_layout_len(info, order, align);
    byte_order::lemma_byte_ranges();
    byte_order::lemma_native_len(order, info.qp_num as int, 4);
    byte_order::lemma_native_len(order, info.rkey as int, 4);
    byte_order::lemma_native_len(order, info.buf_addr as int, 8);
    byte_order::lemma_native_len(order, info.lid as int, 2);
    byte_order::lemma_native_roundtrip(order, info.qp_num as int, 4);
    byte_order::lemma_native_roundtrip(order, info.rkey as int, 4);
    byte_order::lemma_native_roundtrip(order, info.buf_addr as int, 8);
    byte_order::lemma_native_roundtrip(order, info.lid as int, 2);
    assert(s.subrange(0, 4) =~= byte_order::native_bytes(order, info.qp_num as int, 4));
    assert(s.subrange(4, 8) =~= byte_order::native_bytes(order, info.rkey as int, 4));
    assert(s.subrange(8, 16) =~= byte_order::native_bytes(order, info.buf_addr as int, 8));
    assert(s.subrange(16, 18) =~= byte_order::native_bytes(order, info.lid as int, 2));
}

/// The bytes of a value that was read from memory are the bytes it was read
/// from, but for the padding, which is zero.
pub proof fn law_layout_written_back(s: Seq<u8>, order: Endian, align: nat)
    requires
        s.len() >= FIELDS_SIZE,
    ensures
        ConnInfo::laid_out_in(s, order).layout(order, align) == s.take(FIELDS_SIZE as int)
            + zeros(padding(align)),
{
    lemma_field_ranges(s, order);
    byte_order::lemma_native_bytes_roundtrip(order, s.subrange(0, 4));
    byte_order::lemma_native_bytes_roundtrip(order, s.subrange(4, 8));
    byte_order::lemma_native_bytes_roundtrip(order, s.subrange(8, 16));
    byte_order::lemma_native_bytes_roundtrip(order, s.subrange(16, 18));
    assert(ConnInfo::laid_out_in(s, order).layout(order, align) =~= s.take(FIELDS_SIZE as int)
        + zeros(padding(align)));
}

/// A value that one machine converts to network order and sends from its memory
/// arrives unchanged at a machine that receives as many bytes as the value has
/// there, stores them and converts them from network order, whatever the orders
/// of the two machines, if the sender sends that many bytes.
pub proof fn law_exchange_across_architectures(
    info: ConnInfo,
    sender: Endian,
    sender_align: nat,
    receiver: Endian,
    receiver_align: nat,
)
    requires
        size_aligned(receiver_align) <= size_aligned(sender_align),
    ensures
        ({
            let sent = info.be_converted(sender).layout(sender, sender_align);
            let received = sent.take(size_aligned(receiver_align) as int);
            ConnInfo::laid_out_in(received, receiver).be_converted(receiver) == info
        }),
{
    let n = size_aligned(receiver_align) as int;
    let sent = info.wire(sender_align);
    lemma_wire_form(info, sender, sender_align);
    lemma_layout_len(info, Endian::Big, sender_align);
    lemma_carried(sent.take(n), receiver);
    law_layout_read_back(info, Endian::Big, sender_align, Seq::empty(), n);
    assert(sent + Seq::<u8>::empty() =~= sent);
}

/// The wire form of a value carries the value.
pub proof fn law_wire_read_back(info: ConnInfo, align: nat)
    ensures
        info.wire(align).len() == size_aligned(align),
        ConnInfo::carried_by(info.wire(align)) == info,
{
    let n = size_aligned(align) as int;
    lemma_layout_len(info, Endian::Big, align);
    law_layout_read_back(info, Endian::Big, align, Seq::empty(), n);
    assert((info.wire(align) + Seq::<u8>::empty()).take(n) =~= info.wire(align));
}

/// Whatever its value, in memory each field stands at its own offset: the queue
/// pair number at 0, the key at 4, the address at 8, the identifier at 16 and the
/// port at 18. The bytes behind them are zero.
pub proof fn law_layout_by_offset(info: ConnInfo, order: Endian, align: nat)
    ensures
        info.layout(order, align).len() == size_aligned(align),
        info.layout(order, align).subrange(0, 4) == byte_order::native_bytes(
            order,
            info.qp_num as int,
            4,
        ),
        info.layout(order, align).subrange(4, 8) == byte_order::native_bytes(
            order,
            info.rkey as int,
            4,
        ),
        info.layout(order, align).subrange(8, 16) == byte_order::native_bytes(
            order,
            info.buf_addr as int,
            8,
        ),
        info.layout(order, align).subrange(16, 18) == byte_order::native_bytes(
            order,
            info.lid as int,
            2,
        ),
        info.layout(order, align)[18] == info.port,
        forall|i: int|
            19 <= i < info.layout(order, align).len() ==> info.layout(order, align)[i] == 0,
{
    let s = info.layout(order, align);
    lemma_layout_len(info, order, align);
    byte_order::lemma_native_len(order, info.qp_num as int, 4);
    byte_order::lemma_native_len(order, info.rkey as int, 4);
    byte_order::lemma_native_len(order, info.buf_addr as int, 8);
    byte_order::lemma_native_len(order, info.lid as int, 2);
    assert(s.subrange(0, 4) =~= byte_order::native_bytes(order, info.qp_num as int, 4));
    assert(s.subrange(4, 8) =~= byte_order::native_bytes(order, info.rkey as int, 4));
    assert(s.subrange(8, 16) =~= byte_order::native_bytes(order, info.buf_addr as int, 8));
    assert(s.subrange(16, 18) =~= byte_order::native_bytes(order, info.lid as int, 2));
}

/// Whatever the bytes, a machine reads each field from its own offset: the queue
/// pair number from 0, the key from 4, the address from 8, the identifier from 16
/// and the port from 18.
pub proof fn law_fields_by_offset(s: Seq<u8>, order: Endian)
    requires
        s.len() >= FIELDS_SIZE,
    ensures
        FIELDS_SIZE == 19,
        ConnInfo::laid_out_in(s, order).qp_num == byte_order::native_value(
            order,
            s.subrange(0, 4),
        ),
        ConnInfo::laid_out_in(s, order).rkey == byte_order::native_value(order, s.subrange(4, 8)),
        ConnInfo::laid_out_in(s, order).buf_addr == byte_order::native_value(
            order,
            s.subrange(8, 16),
        ),
        ConnInfo::laid_out_in(s, order).lid == byte_order::native_value(
            order,
            s.subrange(16, 18),
        ),
        ConnInfo::laid_out_in(s, order).port == s[18],
        ConnInfo::carried_by(s) == ConnInfo::laid_out_in(s, Endian::Big),
{
    lemma_field_ranges(s, order);
}

/// Converting a value to or from network order converts each field by itself, in
/// its own width, and leaves the port as it is.
pub proof fn law_fields_converted(info: ConnInfo, order: Endian)
    ensures
        info.be_converted(order).qp_num == byte_order::be_converted(
            order,
            info.qp_num as int,
            4,
        ),
        info.be_converted(order).rkey == byte_order::be_converted(order, info.rkey as int, 4),
        info.be_converted(order).buf_addr == byte_order::be_converted(
            order,
            info.buf_addr as int,
            8,
        ),
        info.be_converted(order).lid == byte_order::be_converted(order, info.lid as int, 2),
        info.be_converted(order).port == info.port,
        info.be_converted(Endian::Big) == info,
{
    byte_order::lemma_byte_ranges();
    byte_order::lemma_be_converted(order, info.qp_num as int, 4);
    byte_order::lemma_be_converted(order, info.rkey as int, 4);
    byte_order::lemma_be_converted(order, info.buf_addr as int, 8);
    byte_order::lemma_be_converted(order, info.lid as int, 2);
}

/// On the wire the byte of each power of 256 of each field stands at one fixed
/// place, the highest power of a field first, whichever machine sent it.
pub proof fn law_wire_by_place(info: ConnInfo, align: nat, i: int)
    requires
        0 <= i < 8,
    ensures
        info.wire(align).len() == size_aligned(align),
        i < 4 ==> info.wire(align)[3 - i] as int == info.qp_num as int / power::pow(256, i as nat)
            % 256,
        i < 4 ==> info.wire(align)[7 - i] as int == info.rkey as int / power::pow(256, i as nat)
            % 256,
        info.wire(align)[15 - i] as int == info.buf_addr as int / power::pow(256, i as nat) % 256,
        i < 2 ==> info.wire(align)[17 - i] as int == info.lid as int / power::pow(256, i as nat)
            % 256,
        info.wire(align)[18] == info.port,
{
    let s = info.wire(align);
    law_layout_by_offset(info, Endian::Big, align);
    if i < 4 {
        byte_order::law_bytes_by_place(info.qp_num as int, 4, i);
        byte_order::law_bytes_by_place(info.rkey as int, 4, i);
        assert(s[3 - i] == s.subrange(0, 4)[3 - i]);
        assert(s[7 - i] == s.subrange(4, 8)[3 - i]);
    }
    byte_order::law_bytes_by_place(info.buf_addr as int, 8, i);
    assert(s[15 - i] == s.subrange(8, 16)[7 - i]);
    if i < 2 {
        byte_order::law_bytes_by_place(info.lid as int, 2, i);
        assert(s[17 - i] == s.subrange(16, 18)[1 - i]);
    }
}

/// The size of a value is the least multiple of its alignment that holds its
/// nineteen bytes of fields.
pub proof fn law_size_is_least_multiple(align: nat)
    requires
        align > 0,
    ensures
        size_aligned(align) % align == 0,
        19 <= size_aligned(align) < 19 + align,
{
    let a = align as int;
    let over = 19int % a;
    div_mod::lemma_fundamental_div_mod(19, a);
    div_mod::lemma_mod_bound(19, a);
    if over == 0 {
        div_mod::lemma_mod_self_0(a);
    } else {
        div_mod::lemma_small_mod((a - over) as nat, align);
        mul::lemma_mul_is_distributive_add(a, 19int / a, 1);
        assert(size_aligned(align) == a * (19int / a + 1));
        div_mod::lemma_mod_multiples_basic(19int / a + 1, a);
        mul::lemma_mul_is_commutative(a, 19int / a + 1);
    }
}

/// The alignment of a value is that of one of its fields, and no field has a
/// greater one.
pub proof fn law_alignment_is_greatest()
    ensures
        host_align() >= vstd::layout::align_of::<u64>(),
        host_align() >= vstd::layout::align_of::<u32>(),
        host_align() >= vstd::layout::align_of::<u16>(),
        host_align() >= vstd::layout::align_of::<u8>(),
        host_align() == vstd::layout::align_of::<u64>() || host_align()
            == vstd::layout::align_of::<u32>() || host_align() == vstd::layout::align_of::<u16>()
            || host_align() == vstd::layout::align_of::<u8>(),
{
}

} // verus!
