use crate::codec::{bytes_to_words_le, bytes_to_words_le_vec, words_to_bytes_le, words_to_bytes_le_vec};
use crate::curve::{add_points, decompress_y, decompressed_y, double_point, double_words, sum_words, CurveType};
use crate::memory::{
    addr_of, after_access, fresh_entries, lemma_addr_of_in_span, read_records, span_fits, span_set,
    span_values, stale_entries, write_records, MemoryLocalEvent, MemoryReadRecord, MemoryRecord,
    MemoryWriteRecord, SyscallContext,
};
use vstd::prelude::*;

verus! {

/// Emitted when an elliptic curve addition is performed.
#[derive(Clone, Debug)]
pub struct EllipticCurveAddEvent {
    pub lookup_id: u128,
    pub shard: u32,
    pub channel: u8,
    /// The clock at the start of the operation.
    pub clk: u32,
    pub p_ptr: u32,
    /// The first point, as read, in words.
    pub p: Vec<u32>,
    pub q_ptr: u32,
    /// The second point in words.
    pub q: Vec<u32>,
    /// The records of overwriting the first point with the sum.
    pub p_memory_records: Vec<MemoryWriteRecord>,
    /// The records of reading the second point.
    pub q_memory_records: Vec<MemoryReadRecord>,
    pub local_mem_access: Vec<MemoryLocalEvent>,
}

/// Emitted when an elliptic curve doubling is performed.
#[derive(Clone, Debug)]
pub struct EllipticCurveDoubleEvent {
    pub lookup_id: u128,
    pub shard: u32,
    pub channel: u8,
    pub clk: u32,
    pub p_ptr: u32,
    /// The point, as read, in words.
    pub p: Vec<u32>,
    /// The records of overwriting the point with its double.
    pub p_memory_records: Vec<MemoryWriteRecord>,
    pub local_mem_access: Vec<MemoryLocalEvent>,
}

/// Emitted when an elliptic curve point decompression is performed.
#[derive(Clone, Debug)]
pub struct EllipticCurveDecompressEvent {
    pub lookup_id: u128,
    pub shard: u32,
    pub channel: u8,
    pub clk: u32,
    pub ptr: u32,
    pub sign_bit: bool,
    /// The x-coordinate as little-endian bytes.
    pub x_bytes: Vec<u8>,
    /// The recovered y-coordinate as little-endian bytes, one field element long.
    pub decompressed_y_bytes: Vec<u8>,
    pub x_memory_records: Vec<MemoryReadRecord>,
    pub y_memory_records: Vec<MemoryWriteRecord>,
    pub local_mem_access: Vec<MemoryLocalEvent>,
}

/// Why a precompile call could not proceed. None of these is meant to be recovered from.
#[derive(Clone, Copy, Debug, PartialEq, Eq, Structural)]
pub enum EcFault {
    /// A pointer operand is not a multiple of 4.
    MisalignedPointer,
    /// The sign bit is neither 0 nor 1.
    InvalidSignBit,
    /// An operand is not a point of the curve, or the result has no affine form.
    NoCurvePoint,
}

/// The context is left exactly as it was.
pub open spec fn context_unchanged(a: SyscallContext, b: SyscallContext) -> bool {
    &&& b.memory@ == a.memory@
    &&& b.local_memory_access@ == a.local_memory_access@
    &&& b.forwarded_local_memory_access@ == a.forwarded_local_memory_access@
    &&& b.clk == a.clk
    &&& b.shard == a.shard
    &&& b.channel == a.channel
    &&& b.syscall_lookup_id == a.syscall_lookup_id
}

/// The identifiers of the context that every event carries.
pub open spec fn ids_unchanged(a: SyscallContext, b: SyscallContext) -> bool {
    &&& b.shard == a.shard
    &&& b.channel == a.channel
    &&& b.syscall_lookup_id == a.syscall_lookup_id
}

/// The addition event and the context after it, when the sum of the points at
/// `p_ptr` and `q_ptr` has the words `s`: Q is read at the starting clock, the clock
/// advances by one, and P is overwritten with `s`.
pub open spec fn add_effect(
    rt0: SyscallContext,
    rt1: SyscallContext,
    curve: CurveType,
    p_ptr: u32,
    q_ptr: u32,
    s: Seq<u32>,
    ev: EllipticCurveAddEvent,
) -> bool {
    let n = curve.point_words() as int;
    let m0 = rt0.memory@;
    let log0 = rt0.local_memory_access@;
    let qv = span_values(m0, q_ptr, n);
    let m1 = after_access(m0, q_ptr, qv, rt0.shard, rt0.clk);
    let clk1 = (rt0.clk + 1) as u32;
    let log1 = log0.remove_keys(span_set(q_ptr, n));
    &&& ev.lookup_id == rt0.syscall_lookup_id
    &&& ev.shard == rt0.shard
    &&& ev.channel == rt0.channel
    &&& ev.clk == rt0.clk
    &&& ev.p_ptr == p_ptr
    &&& ev.q_ptr == q_ptr
    &&& ev.p@ == span_values(m0, p_ptr, n)
    &&& ev.q@ == qv
    &&& ev.q_memory_records@ == read_records(m0, q_ptr, n, rt0.shard, rt0.clk)
    &&& ev.p_memory_records@ == write_records(m1, p_ptr, s, rt0.shard, clk1)
    &&& ev.local_mem_access@ == fresh_entries(m0, q_ptr, qv, rt0.shard, rt0.clk) + fresh_entries(
        m1,
        p_ptr,
        s,
        rt0.shard,
        clk1,
    )
    &&& rt1.memory@ == after_access(m1, p_ptr, s, rt0.shard, clk1)
    &&& rt1.local_memory_access@ == log1.remove_keys(span_set(p_ptr, n))
    &&& rt1.forwarded_local_memory_access@ == rt0.forwarded_local_memory_access@ + stale_entries(
        log0,
        q_ptr,
        n,
    ) + stale_entries(log1, p_ptr, n)
    &&& rt1.clk == clk1
    &&& ids_unchanged(rt0, rt1)
}

/// The doubling event and the context after it, when the double of the point at
/// `p_ptr` has the words `s`: P is overwritten with `s` at the starting clock.
pub open spec fn double_effect(
    rt0: SyscallContext,
    rt1: SyscallContext,
    curve: CurveType,
    p_ptr: u32,
    s: Seq<u32>,
    ev: EllipticCurveDoubleEvent,
) -> bool {
    let n = curve.point_words() as int;
    let m0 = rt0.memory@;
    let log0 = rt0.local_memory_access@;
    &&& ev.lookup_id == rt0.syscall_lookup_id
    &&& ev.shard == rt0.shard
    &&& ev.channel == rt0.channel
    &&& ev.clk == rt0.clk
    &&& ev.p_ptr == p_ptr
    &&& ev.p@ == span_values(m0, p_ptr, n)
    &&& ev.p_memory_records@ == write_records(m0, p_ptr, s, rt0.shard, rt0.clk)
    &&& ev.local_mem_access@ == fresh_entries(m0, p_ptr, s, rt0.shard, rt0.clk)
    &&& rt1.memory@ == after_access(m0, p_ptr, s, rt0.shard, rt0.clk)
    &&& rt1.local_memory_access@ == log0.remove_keys(span_set(p_ptr, n))
    &&& rt1.forwarded_local_memory_access@ == rt0.forwarded_local_memory_access@ + stale_entries(
        log0,
        p_ptr,
        n,
    )
    &&& rt1.clk == rt0.clk
    &&& ids_unchanged(rt0, rt1)
}

/// The base of the x-coordinate of a decompression at `ptr`: one field element above it.
pub open spec fn x_base(curve: CurveType, ptr: u32) -> u32 {
    (ptr + curve.limbs()) as u32
}

/// The x-coordinate read by a decompression at `ptr`, as little-endian bytes.
pub open spec fn decompress_x_bytes(rt0: SyscallContext, curve: CurveType, ptr: u32) -> Seq<u8> {
    words_to_bytes_le(span_values(rt0.memory@, x_base(curve, ptr), curve.field_words() as int))
}

/// The decompression event and the context after it, when the recovered y-coordinate
/// has the little-endian bytes `y`: x is read and y written, both at the starting clock.
pub open spec fn decompress_effect(
    rt0: SyscallContext,
    rt1: SyscallContext,
    curve: CurveType,
    ptr: u32,
    sign: bool,
    y: Seq<u8>,
    ev: EllipticCurveDecompressEvent,
) -> bool {
    let f = curve.field_words() as int;
    let xb = x_base(curve, ptr);
    let m0 = rt0.memory@;
    let log0 = rt0.local_memory_access@;
    let xv = span_values(m0, xb, f);
    let m1 = after_access(m0, xb, xv, rt0.shard, rt0.clk);
    let yw = bytes_to_words_le(y);
    let log1 = log0.remove_keys(span_set(xb, f));
    &&& ev.lookup_id == rt0.syscall_lookup_id
    &&& ev.shard == rt0.shard
    &&& ev.channel == rt0.channel
    &&& ev.clk == rt0.clk
    &&& ev.ptr == ptr
    &&& ev.sign_bit == sign
    &&& ev.x_bytes@ == words_to_bytes_le(xv)
    &&& ev.decompressed_y_bytes@ == y
    &&& ev.x_memory_records@ == read_records(m0, xb, f, rt0.shard, rt0.clk)
    &&& ev.y_memory_records@ == write_records(m1, ptr, yw, rt0.shard, rt0.clk)
    &&& ev.local_mem_access@ == fresh_entries(m0, xb, xv, rt0.shard, rt0.clk) + fresh_entries(
        m1,
        ptr,
        yw,
        rt0.shard,
        rt0.clk,
    )
    &&& rt1.memory@ == after_access(m1, ptr, yw, rt0.shard, rt0.clk)
    &&& rt1.local_memory_access@ == log1.remove_keys(span_set(ptr, f))
    &&& rt1.forwarded_local_memory_access@ == rt0.forwarded_local_memory_access@ + stale_entries(
        log0,
        xb,
        f,
    ) + stale_entries(log1, ptr, f)
    &&& rt1.clk == rt0.clk
    &&& ids_unchanged(rt0, rt1)
}

/// When both operands of an addition are the same point, each word is read at the
/// starting clock and then written one tick later: every write record sees the value
/// and the clock of the read before it.
pub proof fn lemma_aliased_add_reads_before_writes(
    m0: Map<u32, MemoryRecord>,
    ptr: u32,
    n: int,
    s: Seq<u32>,
    shard: u32,
    clk: u32,
)
    requires
        span_fits(ptr, n),
        s.len() == n,
        clk < u32::MAX,
    ensures
        forall|i: int|
            0 <= i < n ==> {
                let w = #[trigger] write_records(
                    after_access(m0, ptr, span_values(m0, ptr, n), shard, clk),
                    ptr,
                    s,
                    shard,
                    (clk + 1) as u32,
                )[i];
                let rd = read_records(m0, ptr, n, shard, clk)[i];
                &&& w.prev_timestamp == rd.timestamp
                &&& w.prev_shard == rd.shard
                &&& w.prev_value == rd.value
                &&& w.timestamp == clk + 1
                &&& rd.timestamp == clk
                &&& w.value == s[i]
            },
{
    assert forall|i: int| 0 <= i < n implies #[trigger] after_access(
        m0,
        ptr,
        span_values(m0, ptr, n),
        shard,
        clk,
    ).contains_key(addr_of(ptr, i)) by {
        lemma_addr_of_in_span(ptr, n, i);
    }
}

/// Adds the point at `arg2` (Q) to the point at `arg1` (P) and stores the sum at `arg1`.
/// Q is read first; the clock then advances by one so that the write of P is ordered
/// after that read even where the two pointers are equal.
pub fn create_ec_add_event(rt: &mut SyscallContext, curve: CurveType, arg1: u32, arg2: u32) -> (r:
    Result<EllipticCurveAddEvent, EcFault>)
    requires
        span_fits(arg1, curve.point_words() as int),
        span_fits(arg2, curve.point_words() as int),
        old(rt).clk < u32::MAX,
    ensures
        r matches Err(EcFault::MisalignedPointer) <==> (arg1 % 4 != 0 || arg2 % 4 != 0),
        r matches Err(EcFault::NoCurvePoint) <==> (arg1 % 4 == 0 && arg2 % 4 == 0 && sum_words(
            curve,
            span_values(old(rt).memory@, arg1, curve.point_words() as int),
            span_values(old(rt).memory@, arg2, curve.point_words() as int),
        ) is None),
        !(r matches Err(EcFault::InvalidSignBit)),
        r is Err ==> context_unchanged(*old(rt), *final(rt)),
        r matches Ok(ev) ==> sum_words(
            curve,
            span_values(old(rt).memory@, arg1, curve.point_words() as int),
            span_values(old(rt).memory@, arg2, curve.point_words() as int),
        ) matches Some(s) && add_effect(*old(rt), *final(rt), curve, arg1, arg2, s, ev),
        r matches Ok(ev) ==> ev.p_memory_records@.len() == curve.point_words()
            && ev.q_memory_records@.len() == curve.point_words() && ev.local_mem_access@.len() == 2
            * curve.point_words(),
{
    let start_clk = rt.clk;
    let p_ptr = arg1;
    let q_ptr = arg2;
    if p_ptr % 4 != 0 || q_ptr % 4 != 0 {
        return Err(EcFault::MisalignedPointer);
    }
    let num_words = curve.num_words_point();
    let p = rt.slice_values(p_ptr, num_words);
    let q_words = rt.slice_values(q_ptr, num_words);
    let result_words = match add_points(curve, &p, &q_words) {
        Some(s) => s,
        None => return Err(EcFault::NoCurvePoint),
    };
    let mut local_mem_access: Vec<MemoryLocalEvent> = Vec::new();
    let (q_memory_records, q) = rt.read_span(q_ptr, num_words, &mut local_mem_access);
    rt.clk = rt.clk + 1;
    let p_memory_records = rt.write_span(p_ptr, &result_words, &mut local_mem_access);
    proof {
        assert(local_mem_access@ =~= seq![] + fresh_entries(
            old(rt).memory@,
            q_ptr,
            q@,
            old(rt).shard,
            start_clk,
        ) + fresh_entries(
            after_access(old(rt).memory@, q_ptr, q@, old(rt).shard, start_clk),
            p_ptr,
            result_words@,
            old(rt).shard,
            (start_clk + 1) as u32,
        ));
    }
    Ok(
        EllipticCurveAddEvent {
            lookup_id: rt.syscall_lookup_id,
            shard: rt.shard,
            channel: rt.channel,
            clk: start_clk,
            p_ptr,
            p,
            q_ptr,
            q,
            p_memory_records,
            q_memory_records,
            local_mem_access,
        },
    )
}

/// Doubles the point at `arg1` by the curve's doubling formula and stores the result
/// at `arg1`. The second argument is not used.
pub fn create_ec_double_event(rt: &mut SyscallContext, curve: CurveType, arg1: u32, arg2: u32) -> (r:
    Result<EllipticCurveDoubleEvent, EcFault>)
    requires
        span_fits(arg1, curve.point_words() as int),
    ensures
        r matches Err(EcFault::MisalignedPointer) <==> arg1 % 4 != 0,
        r matches Err(EcFault::NoCurvePoint) <==> (arg1 % 4 == 0 && double_words(
            curve,
            span_values(old(rt).memory@, arg1, curve.point_words() as int),
        ) is None),
        !(r matches Err(EcFault::InvalidSignBit)),
        r is Err ==> context_unchanged(*old(rt), *final(rt)),
        r matches Ok(ev) ==> double_words(
            curve,
            span_values(old(rt).memory@, arg1, curve.point_words() as int),
        ) matches Some(s) && double_effect(*old(rt), *final(rt), curve, arg1, s, ev),
        r matches Ok(ev) ==> ev.p_memory_records@.len() == curve.point_words()
            && ev.local_mem_access@.len() == curve.point_words(),
{
    let start_clk = rt.clk;
    let p_ptr = arg1;
    if p_ptr % 4 != 0 {
        return Err(EcFault::MisalignedPointer);
    }
    let num_words = curve.num_words_point();
    let p = rt.slice_values(p_ptr, num_words);
    let result_words = match double_point(curve, &p) {
        Some(s) => s,
        None => return Err(EcFault::NoCurvePoint),
    };
    let mut local_mem_access: Vec<MemoryLocalEvent> = Vec::new();
    let p_memory_records = rt.write_span(p_ptr, &result_words, &mut local_mem_access);
    proof {
        assert(local_mem_access@ =~= seq![] + fresh_entries(
            old(rt).memory@,
            p_ptr,
            result_words@,
            old(rt).shard,
            start_clk,
        ));
    }
    Ok(
        EllipticCurveDoubleEvent {
            lookup_id: rt.syscall_lookup_id,
            shard: rt.shard,
            channel: rt.channel,
            clk: start_clk,
            p_ptr,
            p,
            p_memory_records,
            local_mem_access,
        },
    )
}

/// Recovers the y-coordinate of the point whose x-coordinate lies one field element
/// above `slice_ptr`, selected by `sign_bit`, and writes it at `slice_ptr`.
pub fn create_ec_decompress_event(
    rt: &mut SyscallContext,
    curve: CurveType,
    slice_ptr: u32,
    sign_bit: u32,
) -> (r: Result<EllipticCurveDecompressEvent, EcFault>)
    requires
        span_fits(slice_ptr, 2 * curve.field_words() as int),
    ensures
        r matches Err(EcFault::MisalignedPointer) <==> slice_ptr % 4 != 0,
        r matches Err(EcFault::InvalidSignBit) <==> (slice_ptr % 4 == 0 && sign_bit > 1),
        r matches Err(EcFault::NoCurvePoint) <==> (slice_ptr % 4 == 0 && sign_bit <= 1
            && decompressed_y(curve, decompress_x_bytes(*old(rt), curve, slice_ptr), sign_bit == 1)
            is None),
        r is Err ==> context_unchanged(*old(rt), *final(rt)),
        r matches Ok(ev) ==> decompressed_y(
            curve,
            decompress_x_bytes(*old(rt), curve, slice_ptr),
            sign_bit == 1,
        ) matches Some(y) && decompress_effect(
            *old(rt),
            *final(rt),
            curve,
            slice_ptr,
            sign_bit == 1,
            y,
            ev,
        ),
        r matches Ok(ev) ==> ev.x_memory_records@.len() == curve.field_words()
            && ev.y_memory_records@.len() == curve.field_words() && ev.decompressed_y_bytes@.len()
            == curve.limbs() && ev.local_mem_access@.len() == 2 * curve.field_words(),
{
    let start_clk = rt.clk;
    if slice_ptr % 4 != 0 {
        return Err(EcFault::MisalignedPointer);
    }
    if sign_bit > 1 {
        return Err(EcFault::InvalidSignBit);
    }
    let num_limbs = curve.num_limbs();
    let num_words_field_element = curve.num_words_field_element();
    let x_ptr = slice_ptr + num_limbs as u32;
    let x_words = rt.slice_values(x_ptr, num_words_field_element);
    let x_bytes = words_to_bytes_le_vec(&x_words);
    let decompressed_y_bytes = match decompress_y(curve, &x_bytes, sign_bit == 1) {
        Some(y) => y,
        None => return Err(EcFault::NoCurvePoint),
    };
    let y_words = bytes_to_words_le_vec(&decompressed_y_bytes);
    let mut local_mem_access: Vec<MemoryLocalEvent> = Vec::new();
    let (x_memory_records, x_vec) = rt.read_span(
        x_ptr,
        num_words_field_element,
        &mut local_mem_access,
    );
    let y_memory_records = rt.write_span(slice_ptr, &y_words, &mut local_mem_access);
    proof {
        assert(local_mem_access@ =~= seq![] + fresh_entries(
            old(rt).memory@,
            x_ptr,
            x_vec@,
            old(rt).shard,
            start_clk,
        ) + fresh_entries(
            after_access(old(rt).memory@, x_ptr, x_vec@, old(rt).shard, start_clk),
            slice_ptr,
            y_words@,
            old(rt).shard,
            start_clk,
        ));
    }
    Ok(
        EllipticCurveDecompressEvent {
            lookup_id: rt.syscall_lookup_id,
            shard: rt.shard,
            channel: rt.channel,
            clk: start_clk,
            ptr: slice_ptr,
            sign_bit: sign_bit != 0,
            x_bytes,
            decompressed_y_bytes,
            x_memory_records,
            y_memory_records,
            local_mem_access,
        },
    )
}

} // verus!
