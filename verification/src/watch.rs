//! How the server notices that its memory was written, and what it then prints.

use crate::payload;
use crate::text;
use crate::verbs::{DATA_SIZE, MEM_SIZE};
use vstd::arithmetic::power;
use vstd::prelude::*;

verus! {

/// The byte that the memory of the server is filled with at first.
pub const FILL_BYTE: u8 = 0xAA;

/// How many times the server looks at its memory, once a second.
pub const WATCH_SECONDS: i32 = 60;

/// How watching goes on.
#[derive(Debug, Clone, Copy, PartialEq, Eq, Structural)]
pub enum WatchStep {
    /// Sleep for a second and look again; `elapsed` seconds have passed.
    Sleep { elapsed: i32 },
    /// The memory has changed by the given second.
    Changed { second: i32 },
    /// The time is over.
    Expired,
}

/// Where watching stands when the first byte of the memory is `first` after
/// another second than the `elapsed` ones.
pub open spec fn after_look(elapsed: i32, first: u8) -> WatchStep {
    if first != FILL_BYTE {
        WatchStep::Changed { second: (elapsed + 1) as i32 }
    } else if elapsed + 1 < WATCH_SECONDS {
        WatchStep::Sleep { elapsed: (elapsed + 1) as i32 }
    } else {
        WatchStep::Expired
    }
}

/// Where watching stands after looks that found the given first bytes. Once it
/// has ended, no more looks are taken.
pub open spec fn after_looks(firsts: Seq<u8>) -> WatchStep
    decreases firsts.len(),
{
    if firsts.len() == 0 {
        WatchStep::Sleep { elapsed: 0 }
    } else {
        match after_looks(firsts.drop_last()) {
            WatchStep::Sleep { elapsed } => after_look(elapsed, firsts.last()),
            ended => ended,
        }
    }
}

/// How watching goes on when the first byte of the memory is `first` after
/// another second than the `elapsed` ones.
pub fn watch_step(elapsed: i32, first: u8) -> (step: WatchStep)
    requires
        elapsed < WATCH_SECONDS,
    ensures
        step == after_look(elapsed, first),
        first != 0xAA ==> step == (WatchStep::Changed { second: (elapsed + 1) as i32 }),
        first == 0xAA && elapsed < 59 ==> step == (WatchStep::Sleep {
            elapsed: (elapsed + 1) as i32,
        }),
        first == 0xAA && elapsed == 59 ==> step is Expired,
{
    if first != FILL_BYTE {
        WatchStep::Changed { second: elapsed + 1 }
    } else if elapsed + 1 < WATCH_SECONDS {
        WatchStep::Sleep { elapsed: elapsed + 1 }
    } else {
        WatchStep::Expired
    }
}

proof fn lemma_unchanged_looks(firsts: Seq<u8>)
    requires
        firsts.len() < WATCH_SECONDS,
        forall|i: int| 0 <= i < firsts.len() ==> firsts[i] == FILL_BYTE,
    ensures
        after_looks(firsts) == (WatchStep::Sleep { elapsed: firsts.len() as i32 }),
    decreases firsts.len(),
{
    if firsts.len() > 0 {
        lemma_unchanged_looks(firsts.drop_last());
    }
}

/// A change of the first byte that the server sees within its time is reported,
/// with the second in which it was first seen.
pub proof fn law_change_is_reported(firsts: Seq<u8>, k: int)
    requires
        0 <= k < firsts.len(),
        k < WATCH_SECONDS,
        forall|i: int| 0 <= i < k ==> firsts[i] == FILL_BYTE,
        firsts[k] != FILL_BYTE,
    ensures
        after_looks(firsts) == (WatchStep::Changed { second: (k + 1) as i32 }),
    decreases firsts.len(),
{
    let before = firsts.drop_last();
    if k < before.len() {
        law_change_is_reported(before, k);
    } else {
        lemma_unchanged_looks(before);
    }
}

/// Without a change the server watches for the whole of its time, and no longer.
pub proof fn law_watching_expires(firsts: Seq<u8>)
    requires
        forall|i: int| 0 <= i < firsts.len() && i < WATCH_SECONDS ==> firsts[i] == FILL_BYTE,
    ensures
        firsts.len() < WATCH_SECONDS ==> after_looks(firsts) == (WatchStep::Sleep {
            elapsed: firsts.len() as i32,
        }),
        firsts.len() >= WATCH_SECONDS ==> after_looks(firsts) is Expired,
    decreases firsts.len(),
{
    if firsts.len() > 0 {
        law_watching_expires(firsts.drop_last());
    }
}

/// The memory of the server before anything was written to it.
pub open spec fn initial_memory() -> Seq<u8> {
    Seq::new(MEM_SIZE as nat, |i: int| FILL_BYTE)
}

/// The memory `mem` after the client wrote what it writes to its beginning.
pub open spec fn written_memory(mem: Seq<u8>) -> Seq<u8> {
    payload::local_memory().take(DATA_SIZE as int) + mem.skip(DATA_SIZE as int)
}

/// What the client writes changes the first byte of the memory, so that the
/// server tells the written memory from the initial one.
pub proof fn law_write_is_noticed(elapsed: i32)
    requires
        0 <= elapsed < WATCH_SECONDS,
    ensures
        !(after_look(elapsed, initial_memory()[0]) is Changed),
        after_look(elapsed, written_memory(initial_memory())[0]) == (WatchStep::Changed {
            second: (elapsed + 1) as i32,
        }),
        written_memory(initial_memory()).len() == MEM_SIZE,
{
    reveal_strlit("Hello from RDMA Client! This data was written via RDMA Write.");
    assert(payload::MESSAGE@[0] == 'H');
}

/// How byte number `j` of the memory, of value `byte`, is shown: two hexadecimal
/// digits and a space, with its number before it at the start of each row of
/// sixteen and a line break behind it at the end.
pub open spec fn byte_shown(j: int, byte: u8) -> Seq<char> {
    (if j % 16 == 0 {
        "[服务端]    "@ + text::hex(j as nat, 4) + ": "@
    } else {
        Seq::empty()
    }) + text::hex(byte as nat, 2) + " "@ + (if j % 16 == 15 {
        "\n"@
    } else {
        Seq::empty()
    })
}

/// How the bytes `s` are shown, one after another.
pub open spec fn bytes_shown(s: Seq<u8>) -> Seq<char>
    decreases s.len(),
{
    if s.len() == 0 {
        Seq::empty()
    } else {
        bytes_shown(s.drop_last()) + byte_shown(s.len() - 1, s.last())
    }
}

/// A hexadecimal dump of `bytes`, in rows of sixteen.
pub fn hex_dump(bytes: &[u8]) -> (dump: String)
    requires
        bytes@.len() <= 0x1_0000,
    ensures
        dump@ == bytes_shown(bytes@),
{
    let mut dump: String = String::new();
    let mut j: usize = 0;
    assert(bytes@.take(0) =~= Seq::<u8>::empty());
    while j < bytes.len()
        invariant
            j <= bytes@.len() <= 0x1_0000,
            dump@ == bytes_shown(bytes@.take(j as int)),
        decreases bytes@.len() - j,
    {
        let ghost before = dump@;
        if j % 16 == 0 {
            dump.append("[服务端]    ");
            dump.append(text::hex_text(j as u64, 4).as_str());
            dump.append(": ");
        }
        dump.append(text::hex_text(bytes[j] as u64, 2).as_str());
        dump.append(" ");
        if j % 16 == 15 {
            dump.append("\n");
        }
        proof {
            let taken = bytes@.take(j + 1);
            assert(taken.drop_last() =~= bytes@.take(j as int));
            assert(dump@ =~= before + byte_shown(j as int, bytes@[j as int]));
        }
        j = j + 1;
    }
    assert(bytes@.take(bytes@.len() as int) =~= bytes@);
    dump
}

/// What the server prints when, by the given second, it has seen the first byte
/// of its memory change to `first`, and the memory then starts with `bytes`.
pub open spec fn change_reported(second: int, first: u8, bytes: Seq<u8>) -> Seq<char> {
    "[服务端] !!! 第 "@ + text::decimal(second) + " 秒检测到内存变更: 0x"@ + text::hex(
        FILL_BYTE as nat,
        2,
    ) + " → 0x"@ + text::hex(first as nat, 2) + " !!!\n"@
        + "[服务端]    共享内存前 64 字节:\n"@ + bytes_shown(bytes) + "\n"@
        + "[服务端] ✓ RDMA Write 验证成功!\n"@
}

/// What the server prints of a change of its memory that it has seen.
pub fn change_report(second: i32, first: u8, bytes: &[u8]) -> (report: String)
    requires
        bytes@.len() == DATA_SIZE,
    ensures
        report@ == change_reported(second as int, first, bytes@),
{
    let mut report = text::joined(
        "[服务端] !!! 第 ",
        text::decimal_text(second as i64).as_str(),
    );
    report.append(" 秒检测到内存变更: 0x");
    report.append(text::hex_text(FILL_BYTE as u64, 2).as_str());
    report.append(" → 0x");
    report.append(text::hex_text(first as u64, 2).as_str());
    report.append(" !!!\n");
    report.append("[服务端]    共享内存前 64 字节:\n");
    report.append(hex_dump(bytes).as_str());
    report.append("\n");
    report.append("[服务端] ✓ RDMA Write 验证成功!\n");
    report
}

/// What the server prints at the end of its time where the first byte of its
/// memory is still the one that it was filled with.
pub fn expiry_notice(first: u8) -> (notice: Option<String>)
    ensures
        match notice {
            Some(text) => first == FILL_BYTE && text@
                == "[服务端] 未检测到内存变更 (超时 60s)"@,
            None => first != FILL_BYTE,
        },
{
    if first == FILL_BYTE {
        Some("[服务端] 未检测到内存变更 (超时 60s)".to_owned())
    } else {
        None
    }
}

/// What the server looks for, and for how long.
pub proof fn law_watch_limits()
    ensures
        FILL_BYTE == 0xAA,
        WATCH_SECONDS == 60,
        initial_memory().len() == 4096,
        forall|i: int| 0 <= i < 4096 ==> initial_memory()[i] == 0xAA,
{
}

/// The number of characters that the first `m` bytes of a dump take: each row of
/// sixteen has 64.
pub open spec fn dump_len(m: int) -> int {
    m / 16 * 64 + if m % 16 == 0 {
        0
    } else {
        15 + m % 16 * 3
    }
}

/// Where byte number `j` stands in a dump.
pub open spec fn dump_place(j: int) -> int {
    j / 16 * 64 + 15 + j % 16 * 3
}

proof fn lemma_powers_of_sixteen()
    ensures
        power::pow(16, 2) == 0x100,
        power::pow(16, 4) == 0x1_0000,
{
    reveal(power::pow);
    reveal_with_fuel(power::pow, 5);
}

#[verifier::rlimit(40)]
proof fn lemma_byte_shown(j: int, byte: u8)
    requires
        0 <= j < 0x1_0000,
    ensures
        ({
            let shown = byte_shown(j, byte);
            let at = if j % 16 == 0 {
                15int
            } else {
                0
            };
            &&& shown.len() == at + 3 + if j % 16 == 15 {
                1int
            } else {
                0
            }
            &&& text::read_hex(shown.subrange(at, at + 2)) == byte
            &&& text::is_hex_digit(shown[at])
            &&& text::is_hex_digit(shown[at + 1])
            &&& shown[at + 2] == ' '
            &&& j % 16 == 15 ==> shown[at + 3] == '\n'
            &&& j % 16 == 0 ==> {
                &&& shown.take(9) == "[服务端]    "@
                &&& text::read_hex(shown.subrange(9, 13)) == j
                &&& forall|i: int| 9 <= i < 13 ==> text::is_hex_digit(#[trigger] shown[i])
                &&& shown.subrange(13, 15) == ": "@
            }
        }),
{
    reveal_strlit("[服务端]    ");
    reveal_strlit(": ");
    reveal_strlit(" ");
    reveal_strlit("\n");
    lemma_powers_of_sixteen();
    text::law_hex_reads_back(byte as nat, 2);
    text::law_hex_reads_back(j as nat, 4);
    let shown = byte_shown(j, byte);
    let pair = text::hex(byte as nat, 2);
    let number = text::hex(j as nat, 4);
    assert(text::is_hex_digit(pair[0]));
    assert(text::is_hex_digit(pair[1]));
    if j % 16 == 0 {
        assert(shown.take(9) =~= "[服务端]    "@);
        assert(shown.subrange(9, 13) =~= number);
        assert forall|i: int| 9 <= i < 13 implies text::is_hex_digit(#[trigger] shown[i]) by {
            assert(shown[i] == number[i - 9]);
        }
        assert(shown.subrange(13, 15) =~= ": "@);
        assert(shown.subrange(15, 17) =~= pair);
    } else {
        assert(shown.subrange(0, 2) =~= pair);
    }
}

proof fn lemma_bytes_shown_len(s: Seq<u8>)
    requires
        s.len() <= 0x1_0000,
    ensures
        bytes_shown(s).len() == dump_len(s.len() as int),
    decreases s.len(),
{
    if s.len() > 0 {
        lemma_bytes_shown_len(s.drop_last());
        lemma_byte_shown(s.len() - 1, s.last());
    }
}

proof fn lemma_bytes_shown_start(s: Seq<u8>, m: int)
    requires
        0 <= m <= s.len() <= 0x1_0000,
    ensures
        dump_len(m) <= bytes_shown(s).len(),
        bytes_shown(s).take(dump_len(m)) == bytes_shown(s.take(m)),
    decreases s.len(),
{
    lemma_bytes_shown_len(s.take(m));
    if m == s.len() {
        assert(s.take(m) =~= s);
        assert(bytes_shown(s).take(dump_len(m)) =~= bytes_shown(s));
    } else {
        lemma_bytes_shown_start(s.drop_last(), m);
        assert(s.drop_last().take(m) =~= s.take(m));
        assert(bytes_shown(s).take(dump_len(m)) =~= bytes_shown(s.drop_last()).take(dump_len(m)));
    }
}

proof fn lemma_dump_places(j: int)
    requires
        0 <= j,
    ensures
        dump_place(j) == dump_len(j) + if j % 16 == 0 {
            15int
        } else {
            0
        },
        dump_len(j + 1) == dump_place(j) + 3 + if j % 16 == 15 {
            1int
        } else {
            0
        },
        0 <= dump_len(j),
{
}

/// What is shown of one byte stands in the dump behind what is shown of those
/// before it.
#[verifier::rlimit(40)]
proof fn lemma_dump_piece(s: Seq<u8>, j: int)
    requires
        0 <= j < s.len() <= 0x1_0000,
    ensures
        0 <= dump_len(j) <= dump_len(j + 1) <= bytes_shown(s).len(),
        bytes_shown(s).len() == dump_len(s.len() as int),
        bytes_shown(s).subrange(dump_len(j), dump_len(j + 1)) == byte_shown(j, s[j]),
{
    let dump = bytes_shown(s);
    let before = bytes_shown(s.take(j));
    lemma_dump_places(j);
    lemma_byte_shown(j, s[j]);
    lemma_bytes_shown_len(s);
    lemma_bytes_shown_len(s.take(j));
    lemma_bytes_shown_start(s, j + 1);
    assert(s.take(j + 1).drop_last() =~= s.take(j));
    let upto = before + byte_shown(j, s[j]);
    assert(dump.take(dump_len(j + 1)) == upto);
    assert(dump.subrange(dump_len(j), dump_len(j + 1)) =~= upto.subrange(
        dump_len(j),
        dump_len(j + 1),
    ));
    assert(upto.subrange(dump_len(j), dump_len(j + 1)) =~= byte_shown(j, s[j]));
}

/// Every byte of a dump stands at its place, as two hexadecimal digits that read
/// back as the byte and a space; each row of sixteen starts with the prefix of
/// the server and four hexadecimal digits that read back as the number of its
/// first byte, and ends with a line break; and there is nothing else.
#[verifier::rlimit(40)]
pub proof fn law_dump_shows_every_byte(s: Seq<u8>, j: int)
    requires
        0 <= j < s.len() <= 0x1_0000,
    ensures
        ({
            let dump = bytes_shown(s);
            let at = dump_place(j);
            &&& dump.len() == dump_len(s.len() as int)
            &&& 15 <= at <= dump.len() - 3
            &&& text::read_hex(dump.subrange(at, at + 2)) == s[j]
            &&& text::is_hex_digit(dump[at])
            &&& text::is_hex_digit(dump[at + 1])
            &&& dump[at + 2] == ' '
            &&& j % 16 == 15 ==> at + 3 < dump.len() && dump[at + 3] == '\n'
            &&& j % 16 == 0 ==> {
                &&& dump.subrange(at - 15, at - 6) == "[服务端]    "@
                &&& text::read_hex(dump.subrange(at - 6, at - 2)) == j
                &&& forall|i: int| at - 6 <= i < at - 2 ==> text::is_hex_digit(#[trigger] dump[i])
                &&& dump.subrange(at - 2, at) == ": "@
            }
        }),
{
    let dump = bytes_shown(s);
    let start = dump_len(j);
    let piece = dump.subrange(start, dump_len(j + 1));
    let at = dump_place(j);
    lemma_dump_places(j);
    lemma_dump_piece(s, j);
    lemma_byte_shown(j, s[j]);
    assert(piece == byte_shown(j, s[j]));
    assert(dump.subrange(at, at + 2) =~= piece.subrange(at - start, at - start + 2));
    assert(dump[at] == piece[at - start]);
    assert(dump[at + 1] == piece[at - start + 1]);
    assert(dump[at + 2] == piece[at - start + 2]);
    if j % 16 == 15 {
        assert(dump[at + 3] == piece[at - start + 3]);
    }
    if j % 16 == 0 {
        assert(dump.subrange(at - 15, at - 6) =~= piece.take(9));
        assert(dump.subrange(at - 6, at - 2) =~= piece.subrange(9, 13));
        assert(dump.subrange(at - 2, at) =~= piece.subrange(13, 15));
        assert forall|i: int| at - 6 <= i < at - 2 implies text::is_hex_digit(
            #[trigger] dump[i],
        ) by {
            assert(dump[i] == piece[i - start]);
        }
    }
}

#[verifier::rlimit(40)]
proof fn lemma_fixed_texts()
    ensures
        "[服务端] !!! 第 "@.len() == 12,
        " 秒检测到内存变更: 0x"@ + text::hex(FILL_BYTE as nat, 2) + " → 0x"@
            == " 秒检测到内存变更: 0xaa → 0x"@,
        " 秒检测到内存变更: 0xaa → 0x"@.len() == 20,
        " 秒检测到内存变更: 0xaa → 0x"@[0] == ' ',
        " !!!\n"@ + "[服务端]    共享内存前 64 字节:\n"@
            == " !!!\n[服务端]    共享内存前 64 字节:\n"@,
        "\n"@ + "[服务端] ✓ RDMA Write 验证成功!\n"@ == "\n[服务端] ✓ RDMA Write 验证成功!\n"@,
{
    reveal_strlit("[服务端] !!! 第 ");
    reveal_strlit(" 秒检测到内存变更: 0x");
    reveal_strlit(" → 0x");
    reveal_strlit(" 秒检测到内存变更: 0xaa → 0x");
    reveal_strlit(" !!!\n");
    reveal_strlit("[服务端]    共享内存前 64 字节:\n");
    reveal_strlit(" !!!\n[服务端]    共享内存前 64 字节:\n");
    reveal_strlit("\n");
    reveal_strlit("[服务端] ✓ RDMA Write 验证成功!\n");
    reveal_strlit("\n[服务端] ✓ RDMA Write 验证成功!\n");
    reveal_with_fuel(text::hex, 3);
    text::law_digits(10);
    assert(text::hex(FILL_BYTE as nat, 2) =~= seq!['a', 'a']);
    assert(" 秒检测到内存变更: 0x"@ + text::hex(FILL_BYTE as nat, 2) + " → 0x"@
        =~= " 秒检测到内存变更: 0xaa → 0x"@);
    assert(" !!!\n"@ + "[服务端]    共享内存前 64 字节:\n"@
        =~= " !!!\n[服务端]    共享内存前 64 字节:\n"@);
    assert("\n"@ + "[服务端] ✓ RDMA Write 验证成功!\n"@
        =~= "\n[服务端] ✓ RDMA Write 验证成功!\n"@);
}

#[verifier::rlimit(40)]
proof fn lemma_regrouped(
    a: Seq<char>,
    number: Seq<char>,
    b: Seq<char>,
    c: Seq<char>,
    d: Seq<char>,
    shown: Seq<char>,
    e: Seq<char>,
    f: Seq<char>,
    dump: Seq<char>,
    g: Seq<char>,
    h: Seq<char>,
)
    ensures
        a + number + b + c + d + shown + e + f + dump + g + h == a + (number + ((b + c + d) + (shown
            + ((e + f) + dump + (g + h))))),
{
    assert(a + number + b + c + d + shown + e + f + dump + g + h =~= a + (number + ((b + c + d) + (
    shown + ((e + f) + dump + (g + h))))));
}

/// The report of a change names the second in which it was seen, as a number that
/// reads back as that second, then the byte that the memory was filled with and
/// the first byte that was seen, as digits that read back as that byte, and then
/// dumps the bytes.
#[verifier::rlimit(40)]
pub proof fn law_report_reads_back(second: int, first: u8, bytes: Seq<u8>)
    requires
        0 <= second,
    ensures
        ({
            let report = change_reported(second, first, bytes);
            let number = text::leading_digits(report.skip(12));
            let rest = report.skip(12 + number.len() as int);
            let shown = rest.subrange(20, 22);
            &&& report.take(12) == "[服务端] !!! 第 "@
            &&& number.len() > 0
            &&& text::read_decimal(number) == second
            &&& rest.take(20) == " 秒检测到内存变更: 0xaa → 0x"@
            &&& text::read_hex(shown) == first
            &&& text::is_hex_digit(shown[0])
            &&& text::is_hex_digit(shown[1])
            &&& rest.skip(22) == " !!!\n[服务端]    共享内存前 64 字节:\n"@ + bytes_shown(bytes)
                + "\n[服务端] ✓ RDMA Write 验证成功!\n"@
        }),
{
    let head = "[服务端] !!! 第 "@;
    let change = " 秒检测到内存变更: 0xaa → 0x"@;
    let end = " !!!\n[服务端]    共享内存前 64 字节:\n"@ + bytes_shown(bytes)
        + "\n[服务端] ✓ RDMA Write 验证成功!\n"@;
    let digits = text::decimal(second);
    let shown = text::hex(first as nat, 2);
    let rest = change + (shown + end);
    let report = change_reported(second, first, bytes);
    lemma_fixed_texts();
    lemma_powers_of_sixteen();
    text::law_decimal_reads_back(second);
    text::law_decimal_nat_reads_back(second as nat);
    text::law_hex_reads_back(first as nat, 2);
    assert(text::is_hex_digit(shown[0]));
    assert(text::is_hex_digit(shown[1]));
    lemma_regrouped(
        head,
        digits,
        " 秒检测到内存变更: 0x"@,
        text::hex(FILL_BYTE as nat, 2),
        " → 0x"@,
        shown,
        " !!!\n"@,
        "[服务端]    共享内存前 64 字节:\n"@,
        bytes_shown(bytes),
        "\n"@,
        "[服务端] ✓ RDMA Write 验证成功!\n"@,
    );
    assert(report == head + (digits + rest));
    text::lemma_leading_digits(digits, rest);
    assert(report.take(12) =~= head);
    assert(report.skip(12) =~= digits + rest);
    assert(report.skip(12 + digits.len() as int) =~= rest);
    assert(rest.take(20) =~= change);
    assert(rest.subrange(20, 22) =~= shown);
    assert(rest.skip(22) =~= end);
}

/// Reports of changes that were seen in different seconds, or with different first
/// bytes, differ.
pub proof fn law_reports_differ(a: int, first_a: u8, b: int, first_b: u8, bytes: Seq<u8>)
    requires
        0 <= a,
        0 <= b,
        a != b || first_a != first_b,
    ensures
        change_reported(a, first_a, bytes) != change_reported(b, first_b, bytes),
{
    law_report_reads_back(a, first_a, bytes);
    law_report_reads_back(b, first_b, bytes);
}

} // verus!
