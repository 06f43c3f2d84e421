use vstd::prelude::*;
use crate::ident::Symbol;
use crate::sla::SLAResult;

verus! {

/// A calculation packed for storage: status, rating and payment type in
/// the low bits of `packed_flags` (status at bit 3, rating at bits 1-2,
/// payment type at bit 0; bits 4-5 hold a severity, always zero here),
/// and the numbers cut down to narrower types.
#[derive(Debug)]
pub struct CompressedEvent {
    pub packed_flags: u32,
    pub outage_id: Symbol,
    pub mttr_minutes: u16,
    pub threshold_minutes: u16,
    pub amount: i64,
    /// The low 32 bits of the configuration version hash.
    pub config_hash_lo: u32,
    pub recorded_at: u32,
}

impl Clone for CompressedEvent {
    fn clone(&self) -> (c: Self)
        ensures
            c == *self,
    {
        CompressedEvent {
            packed_flags: self.packed_flags,
            outage_id: self.outage_id.clone(),
            mttr_minutes: self.mttr_minutes,
            threshold_minutes: self.threshold_minutes,
            amount: self.amount,
            config_hash_lo: self.config_hash_lo,
            recorded_at: self.recorded_at,
        }
    }
}

/// A calculation as read back from its packed form.
#[derive(Debug)]
pub struct DecompressedEvent {
    pub outage_id: Symbol,
    pub status: Symbol,
    pub mttr_minutes: u32,
    pub threshold_minutes: u32,
    pub amount: i128,
    pub payment_type: Symbol,
    pub rating: Symbol,
    pub config_version_hash: u64,
    pub recorded_at: u64,
}

/// The stored packed calculations.
pub struct CompressionState {
    pub compressed: Option<Vec<CompressedEvent>>,
}

/// Severity code: critical 0, high 1, medium 2, anything else 3.
pub open spec fn severity_code(s: Seq<char>) -> u32 {
    if s == "critical"@ {
        0
    } else if s == "high"@ {
        1
    } else if s == "medium"@ {
        2
    } else {
        3
    }
}

/// Status code: met 0, anything else (a violation) 1.
pub open spec fn status_code(s: Seq<char>) -> u32 {
    if s == "met"@ {
        0
    } else {
        1
    }
}

/// Rating code: top 0, excel 1, good 2, anything else (poor) 3.
pub open spec fn rating_code(s: Seq<char>) -> u32 {
    if s == "top"@ {
        0
    } else if s == "excel"@ {
        1
    } else if s == "good"@ {
        2
    } else {
        3
    }
}

/// Payment code: rew 0, anything else (a penalty) 1.
pub open spec fn payment_code(s: Seq<char>) -> u32 {
    if s == "rew"@ {
        0
    } else {
        1
    }
}

pub fn severity_to_bits(severity: &Symbol) -> (b: u32)
    ensures
        b == severity_code(severity@),
{
    if *severity == Symbol::new("critical") {
        0
    } else if *severity == Symbol::new("high") {
        1
    } else if *severity == Symbol::new("medium") {
        2
    } else {
        3
    }
}

pub fn status_to_bits(status: &Symbol) -> (b: u32)
    ensures
        b == status_code(status@),
{
    if *status == Symbol::new("met") {
        0
    } else {
        1
    }
}

pub fn rating_to_bits(rating: &Symbol) -> (b: u32)
    ensures
        b == rating_code(rating@),
{
    if *rating == Symbol::new("top") {
        0
    } else if *rating == Symbol::new("excel") {
        1
    } else if *rating == Symbol::new("good") {
        2
    } else {
        3
    }
}

pub fn payment_to_bits(payment: &Symbol) -> (b: u32)
    ensures
        b == payment_code(payment@),
{
    if *payment == Symbol::new("rew") {
        0
    } else {
        1
    }
}

/// The status a code stands for.
pub open spec fn status_name(bits: u32) -> Seq<char> {
    if bits == 0 {
        "met"@
    } else {
        "viol"@
    }
}

/// The payment type a code stands for.
pub open spec fn payment_name(bits: u32) -> Seq<char> {
    if bits == 0 {
        "rew"@
    } else {
        "pen"@
    }
}

/// The rating a code stands for.
pub open spec fn rating_name(bits: u32) -> Seq<char> {
    if bits == 0 {
        "top"@
    } else if bits == 1 {
        "excel"@
    } else if bits == 2 {
        "good"@
    } else {
        "poor"@
    }
}

pub fn bits_to_status(bits: u32) -> (s: Symbol)
    ensures
        s@ == status_name(bits),
{
    if bits == 0 {
        Symbol::new("met")
    } else {
        Symbol::new("viol")
    }
}

pub fn bits_to_payment(bits: u32) -> (s: Symbol)
    ensures
        s@ == payment_name(bits),
{
    if bits == 0 {
        Symbol::new("rew")
    } else {
        Symbol::new("pen")
    }
}

pub fn bits_to_rating(bits: u32) -> (s: Symbol)
    ensures
        s@ == rating_name(bits),
{
    match bits {
        0 => Symbol::new("top"),
        1 => Symbol::new("excel"),
        2 => Symbol::new("good"),
        _ => Symbol::new("poor"),
    }
}

/// The flag word of a calculation.
pub open spec fn packed_flags_of(r: SLAResult) -> u32 {
    (status_code(r.status@) * 8 + rating_code(r.rating@) * 2 + payment_code(r.payment_type@)) as u32
}

/// The packed form of a calculation: its codes in the flag word, the
/// minutes and the timestamp cut to their low bits, the amount to 64
/// bits, the hash to its low 32 bits.
pub open spec fn compressed_of(r: SLAResult) -> CompressedEvent {
    CompressedEvent {
        packed_flags: packed_flags_of(r),
        outage_id: r.outage_id,
        mttr_minutes: r.mttr_minutes as u16,
        threshold_minutes: r.threshold_minutes as u16,
        amount: r.amount as i64,
        config_hash_lo: (r.config_version_hash & 0xFFFF_FFFF) as u32,
        recorded_at: r.recorded_at as u32,
    }
}

proof fn lemma_pack(s: u32, g: u32, p: u32)
    requires
        s <= 1,
        g <= 3,
        p <= 1,
    ensures
        ((0u32 << 4u32) | (s << 3u32) | (g << 1u32) | p) == s * 8 + g * 2 + p,
        ((s * 8 + g * 2 + p) as u32 >> 3u32) & 1u32 == s,
        ((s * 8 + g * 2 + p) as u32 >> 1u32) & 3u32 == g,
        (s * 8 + g * 2 + p) as u32 & 1u32 == p,
{
    assert(((0u32 << 4u32) | (s << 3u32) | (g << 1u32) | p) == s * 8 + g * 2 + p) by (bit_vector)
        requires
            s <= 1,
            g <= 3,
            p <= 1,
    ;
    assert(((s * 8 + g * 2 + p) as u32 >> 3u32) & 1u32 == s) by (bit_vector)
        requires
            s <= 1,
            g <= 3,
            p <= 1,
    ;
    assert(((s * 8 + g * 2 + p) as u32 >> 1u32) & 3u32 == g) by (bit_vector)
        requires
            s <= 1,
            g <= 3,
            p <= 1,
    ;
    assert((s * 8 + g * 2 + p) as u32 & 1u32 == p) by (bit_vector)
        requires
            s <= 1,
            g <= 3,
            p <= 1,
    ;
}

/// Packs a calculation for storage.
pub fn compress_event(result: &SLAResult) -> (c: CompressedEvent)
    ensures
        c == compressed_of(*result),
{
    let severity_bits: u32 = 0;
    let status_bits = status_to_bits(&result.status);
    let rating_bits = rating_to_bits(&result.rating);
    let payment_bits = payment_to_bits(&result.payment_type);
    proof {
        lemma_pack(status_bits, rating_bits, payment_bits);
    }
    let packed_flags = (severity_bits << 4) | (status_bits << 3) | (rating_bits << 1) | payment_bits;
    CompressedEvent {
        packed_flags,
        outage_id: result.outage_id.clone(),
        mttr_minutes: result.mttr_minutes as u16,
        threshold_minutes: result.threshold_minutes as u16,
        amount: result.amount as i64,
        config_hash_lo: (result.config_version_hash & 0xFFFF_FFFF) as u32,
        recorded_at: result.recorded_at as u32,
    }
}

/// A packed calculation read back: codes decoded from the flag word
/// (status from bit 3, rating from bits 1-2, payment type from bit 0),
/// numbers widened.
pub open spec fn unpacked(c: CompressedEvent, r: SLAResult) -> bool {
    &&& r.outage_id == c.outage_id
    &&& r.status@ == status_name((c.packed_flags >> 3u32) & 1u32)
    &&& r.mttr_minutes == c.mttr_minutes
    &&& r.threshold_minutes == c.threshold_minutes
    &&& r.amount == c.amount
    &&& r.payment_type@ == payment_name(c.packed_flags & 1u32)
    &&& r.rating@ == rating_name((c.packed_flags >> 1u32) & 3u32)
    &&& r.config_version_hash == c.config_hash_lo
    &&& r.recorded_at == c.recorded_at
}

/// Reads a packed calculation back.
pub fn decompress_event(compressed: &CompressedEvent) -> (r: SLAResult)
    ensures
        unpacked(*compressed, r),
{
    let status_bits = (compressed.packed_flags >> 3) & 0x1;
    let rating_bits = (compressed.packed_flags >> 1) & 0x3;
    let payment_bits = compressed.packed_flags & 0x1;
    SLAResult {
        outage_id: compressed.outage_id.clone(),
        status: bits_to_status(status_bits),
        mttr_minutes: compressed.mttr_minutes as u32,
        threshold_minutes: compressed.threshold_minutes as u32,
        amount: compressed.amount as i128,
        payment_type: bits_to_payment(payment_bits),
        rating: bits_to_rating(rating_bits),
        config_version_hash: compressed.config_hash_lo as u64,
        recorded_at: compressed.recorded_at as u64,
    }
}

/// Packs every calculation, in order.
pub fn compress_batch(results: &Vec<SLAResult>) -> (out: Vec<CompressedEvent>)
    ensures
        out@.len() == results@.len(),
        forall|i: int| 0 <= i < results@.len() ==> #[trigger] out@[i] == compressed_of(results@[i]),
{
    let mut out: Vec<CompressedEvent> = Vec::new();
    let mut i: usize = 0;
    while i < results.len()
        invariant
            i <= results.len(),
            out@.len() == i,
            forall|j: int| 0 <= j < i ==> #[trigger] out@[j] == compressed_of(results@[j]),
        decreases results.len() - i,
    {
        out.push(compress_event(&results[i]));
        i = i + 1;
    }
    out
}

/// Reads every packed calculation back, in order.
pub fn decompress_batch(events: &Vec<CompressedEvent>) -> (out: Vec<SLAResult>)
    ensures
        out@.len() == events@.len(),
        forall|i: int| 0 <= i < events@.len() ==> unpacked(events@[i], #[trigger] out@[i]),
{
    let mut out: Vec<SLAResult> = Vec::new();
    let mut i: usize = 0;
    while i < events.len()
        invariant
            i <= events.len(),
            out@.len() == i,
            forall|j: int| 0 <= j < i ==> unpacked(events@[j], #[trigger] out@[j]),
        decreases events.len() - i,
    {
        out.push(decompress_event(&events[i]));
        i = i + 1;
    }
    out
}

fn copy_events(v: &Vec<CompressedEvent>) -> (r: Vec<CompressedEvent>)
    ensures
        r@ == v@,
{
    let mut r: Vec<CompressedEvent> = Vec::new();
    let mut i: usize = 0;
    while i < v.len()
        invariant
            i <= v.len(),
            r@ == v@.subrange(0, i as int),
        decreases v.len() - i,
    {
        r.push(v[i].clone());
        i = i + 1;
    }
    assert(v@.subrange(0, v.len() as int) =~= v@);
    r
}

/// Stores packed calculations, replacing those stored before.
pub fn store_compressed_events(state: &mut CompressionState, events: &Vec<CompressedEvent>)
    ensures
        final(state).compressed matches Some(v) && v@ == events@,
{
    state.compressed = Some(copy_events(events));
}

/// The stored packed calculations, none before any were stored.
pub fn get_compressed_events(state: &CompressionState) -> (v: Vec<CompressedEvent>)
    ensures
        v@ == match state.compressed {
            Some(s) => s@,
            None => Seq::<CompressedEvent>::empty(),
        },
{
    match &state.compressed {
        Some(v) => copy_events(v),
        None => Vec::new(),
    }
}

/// Bytes saved by packing `event_count` calculations: 96 per calculation.
pub fn estimate_savings(event_count: u32) -> (s: u32)
    requires
        event_count * 96 <= u32::MAX,
    ensures
        s == event_count * 96,
{
    event_count * 96
}

/// A calculation whose fields fit the packed form: a known status, rating
/// and payment type, minutes within 16 bits, the amount within 64 bits,
/// the hash and the timestamp within 32 bits.
pub open spec fn packable(r: SLAResult) -> bool {
    &&& (r.status@ == "met"@ || r.status@ == "viol"@)
    &&& (r.rating@ == "top"@ || r.rating@ == "excel"@ || r.rating@ == "good"@ || r.rating@
        == "poor"@)
    &&& (r.payment_type@ == "rew"@ || r.payment_type@ == "pen"@)
    &&& r.mttr_minutes <= u16::MAX
    &&& r.threshold_minutes <= u16::MAX
    &&& i64::MIN <= r.amount <= i64::MAX
    &&& r.config_version_hash <= u32::MAX
    &&& r.recorded_at <= u32::MAX
}

/// Packing then reading back gives the calculation again, for every
/// calculation whose fields fit the packed form.
pub proof fn lemma_round_trip(r: SLAResult, back: SLAResult)
    requires
        packable(r),
        unpacked(compressed_of(r), back),
    ensures
        back.outage_id == r.outage_id,
        back.status@ == r.status@,
        back.mttr_minutes == r.mttr_minutes,
        back.threshold_minutes == r.threshold_minutes,
        back.amount == r.amount,
        back.payment_type@ == r.payment_type@,
        back.rating@ == r.rating@,
        back.config_version_hash == r.config_version_hash,
        back.recorded_at == r.recorded_at,
{
    reveal_strlit("met");
    reveal_strlit("viol");
    reveal_strlit("top");
    reveal_strlit("excel");
    reveal_strlit("good");
    reveal_strlit("poor");
    reveal_strlit("rew");
    reveal_strlit("pen");
    let s = status_code(r.status@);
    let g = rating_code(r.rating@);
    let p = payment_code(r.payment_type@);
    lemma_pack(s, g, p);
    let h = r.config_version_hash;
    assert(h & 0xFFFF_FFFFu64 == h) by (bit_vector)
        requires
            h <= 0xFFFF_FFFFu64,
    ;
}

} // verus!
