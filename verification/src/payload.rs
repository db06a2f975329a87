//! The data that the client writes into the memory of the server.

use crate::verbs::{DATA_SIZE, LOCAL_MEM_SIZE};
use vstd::prelude::*;
use vstd::string::StringSliceAdditionalSpecFns;

verus! {

/// The text that the client writes.
pub const MESSAGE: &'static str = "Hello from RDMA Client! This data was written via RDMA Write.";

/// What follows the text, as far as there is room for it.
pub const FOOTER: &'static str = "\n[EOF]";

/// The lesser of two numbers.
pub open spec fn lesser(a: int, b: int) -> int {
    if a < b {
        a
    } else {
        b
    }
}

/// Memory of `mem_len` bytes that starts with `content`, cut off after
/// `data_len` bytes, and is zero behind it.
pub open spec fn memory_with(content: Seq<u8>, data_len: int, mem_len: int) -> Seq<u8> {
    Seq::new(
        mem_len as nat,
        |i: int|
            if i < content.len() && i < data_len {
                content[i]
            } else {
                0u8
            },
    )
}

/// The bytes of a text of ASCII characters.
pub open spec fn ascii_bytes(text: Seq<char>) -> Seq<u8> {
    Seq::new(text.len(), |i: int| text[i] as u8)
}

fn copy_into(mem: &mut Vec<u8>, at: usize, content: &[u8], count: usize)
    requires
        count <= content@.len(),
        at + count <= old(mem)@.len(),
    ensures
        final(mem)@.len() == old(mem)@.len(),
        forall|i: int|
            0 <= i < final(mem)@.len() ==> #[trigger] final(mem)@[i] == if at <= i < at + count {
                content@[i - at]
            } else {
                old(mem)@[i]
            },
{
    let mem_len: usize = mem.len();
    let mut i: usize = 0;
    while i < count
        invariant
            i <= count <= content@.len(),
            at + count <= mem_len,
            mem@.len() == mem_len == old(mem)@.len(),
            forall|j: int|
                0 <= j < mem_len ==> #[trigger] mem@[j] == if at <= j < at + i {
                    content@[j - at]
                } else {
                    old(mem)@[j]
                },
        decreases count - i,
    {
        mem.set(at + i, content[i]);
        i = i + 1;
    }
}

fn shorter(a: usize, b: usize) -> (r: usize)
    ensures
        r == lesser(a as int, b as int),
{
    if a < b {
        a
    } else {
        b
    }
}

/// Memory of `mem_len` zero bytes into which `msg` and then `footer` are copied,
/// each as far as it fits into the first `data_len` bytes.
pub fn fill_memory(msg: &[u8], footer: &[u8], data_len: usize, mem_len: usize) -> (mem: Vec<u8>)
    ensures
        mem@ == memory_with(msg@ + footer@, data_len as int, mem_len as int),
        mem@.len() == mem_len,
        forall|i: int|
            0 <= i < mem_len ==> #[trigger] mem@[i] == if i < data_len && i < msg@.len() {
                msg@[i]
            } else if i < data_len && i < msg@.len() + footer@.len() {
                footer@[i - msg@.len()]
            } else {
                0
            },
{
    let mut mem: Vec<u8> = Vec::new();
    mem.resize(mem_len, 0);
    let write_len: usize = shorter(data_len, mem.len());
    let copy_len: usize = shorter(msg.len(), write_len);
    copy_into(&mut mem, 0, msg, copy_len);
    if copy_len < write_len {
        let footer_len: usize = shorter(footer.len(), write_len - copy_len);
        copy_into(&mut mem, copy_len, footer, footer_len);
    }
    assert(mem@ =~= memory_with(msg@ + footer@, data_len as int, mem_len as int));
    mem
}

/// The memory that the client registers: what it writes, and zeros.
pub open spec fn local_memory() -> Seq<u8> {
    memory_with(
        ascii_bytes(MESSAGE@) + ascii_bytes(FOOTER@),
        DATA_SIZE as int,
        LOCAL_MEM_SIZE as int,
    )
}

/// Makes the memory that the client registers.
pub fn local_buffer() -> (mem: Vec<u8>)
    ensures
        mem@ == local_memory(),
        mem@.len() == LOCAL_MEM_SIZE,
        mem@.len() == 4096,
{
    proof {
        lemma_texts_are_ascii();
    }
    fill_memory(MESSAGE.as_bytes(), FOOTER.as_bytes(), DATA_SIZE, LOCAL_MEM_SIZE)
}

proof fn lemma_texts_are_ascii()
    ensures
        MESSAGE.spec_bytes() == ascii_bytes(MESSAGE@),
        FOOTER.spec_bytes() == ascii_bytes(FOOTER@),
{
    reveal_strlit("Hello from RDMA Client! This data was written via RDMA Write.");
    reveal_strlit("\n[EOF]");
    assert(MESSAGE.is_ascii());
    assert(FOOTER.is_ascii());
    vstd::string::is_ascii_spec_bytes(MESSAGE);
    vstd::string::is_ascii_spec_bytes(FOOTER);
    assert(MESSAGE.spec_bytes() =~= ascii_bytes(MESSAGE@));
    assert(FOOTER.spec_bytes() =~= ascii_bytes(FOOTER@));
}

/// Memory is the content as far as it reaches and as far as it may, and zero from
/// there on, whatever the content and the two lengths.
pub proof fn law_memory_is_content_then_zeros(
    content: Seq<u8>,
    data_len: int,
    mem_len: int,
    i: int,
)
    requires
        0 <= i < mem_len,
    ensures
        memory_with(content, data_len, mem_len).len() == mem_len,
        i < content.len() && i < data_len ==> memory_with(content, data_len, mem_len)[i]
            == content[i],
        i >= content.len() || i >= data_len ==> memory_with(content, data_len, mem_len)[i] == 0,
{
}

/// What the client writes is its message, as much of the footer as fits into 64
/// bytes behind it, and nothing else.
pub proof fn law_local_memory_by_place(i: int)
    requires
        0 <= i < 4096,
    ensures
        local_memory().len() == 4096,
        i < 61 ==> local_memory()[i]
            == "Hello from RDMA Client! This data was written via RDMA Write."@[i] as u8,
        61 <= i < 64 ==> local_memory()[i] == "\n[EOF]"@[i - 61] as u8,
        i >= 64 ==> local_memory()[i] == 0,
{
    reveal_strlit("Hello from RDMA Client! This data was written via RDMA Write.");
    reveal_strlit("\n[EOF]");
}

} // verus!
