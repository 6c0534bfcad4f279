//! The receive accumulator: captured chunks, byte counters, display
//! configuration, and the on-demand formatter.

use crate::codec::{decode_or_empty, decoded_text, MsgCode};
use crate::hex::{hex_of_bytes, hex_render};
use vstd::prelude::*;

verus! {

/// One captured chunk as the contracts see it: its bytes and the wall-clock
/// capture time already rendered as text.
pub struct EntryView {
    pub bytes: Seq<u8>,
    pub time: Seq<char>,
}

/// The accumulator as the contracts see it.
#[verifier::ext_equal]
pub struct MsgView {
    /// Captured chunks, oldest first.
    pub entries: Seq<EntryView>,
    /// Whether rendering prefixes each chunk with its capture time.
    pub show_time: bool,
    /// Whether rendering shows bytes as hexadecimal instead of text.
    pub hex: bool,
    /// The codec used when rendering as text.
    pub code: MsgCode,
    /// Cumulative received bytes since the last receive-counter clear.
    pub recv_count: u32,
    /// Cumulative sent bytes since the last send-counter clear.
    pub send_count: u32,
    /// Optional bound on the stored bytes; appends evict oldest entries
    /// beyond it.
    pub max_retained: Option<u32>,
}

/// One captured chunk: the raw bytes and the capture time as text.
#[derive(Debug)]
struct BufferTime {
    buffer: Vec<u8>,
    time: String,
}

impl View for BufferTime {
    type V = EntryView;

    closed spec fn view(&self) -> EntryView {
        EntryView { bytes: self.buffer@, time: self.time@ }
    }
}

/// The stored chunks as the contracts see them.
spec fn entries_view(s: Seq<BufferTime>) -> Seq<EntryView> {
    s.map_values(|bt: BufferTime| bt@)
}

/// How many bytes the stored chunks hold together.
pub open spec fn stored_bytes(entries: Seq<EntryView>) -> int
    decreases entries.len(),
{
    if entries.len() == 0 {
        0
    } else {
        stored_bytes(entries.drop_last()) + entries.last().bytes.len()
    }
}

/// Evicts oldest entries first, whole entries at a time, until the stored
/// bytes fit the bound.
pub open spec fn evict_oldest(entries: Seq<EntryView>, max: int) -> Seq<EntryView>
    decreases entries.len(),
{
    if stored_bytes(entries) <= max {
        entries
    } else if entries.len() == 0 {
        entries
    } else {
        evict_oldest(entries.drop_first(), max)
    }
}

/// The stored chunks after an append under an optional retention bound.
pub open spec fn retained(entries: Seq<EntryView>, max: Option<u32>) -> Seq<EntryView> {
    match max {
        Option::None => entries,
        Option::Some(n) => evict_oldest(entries, n as int),
    }
}

proof fn lemma_stored_bytes_nonneg(entries: Seq<EntryView>)
    ensures
        stored_bytes(entries) >= 0,
    decreases entries.len(),
{
    if entries.len() > 0 {
        lemma_stored_bytes_nonneg(entries.drop_last());
    }
}

proof fn lemma_stored_bytes_take_succ(entries: Seq<EntryView>, i: int)
    requires
        0 <= i < entries.len(),
    ensures
        stored_bytes(entries.take(i + 1)) == stored_bytes(entries.take(i))
            + entries[i].bytes.len(),
{
    assert(entries.take(i + 1).drop_last() =~= entries.take(i));
    assert(entries.take(i + 1).last() == entries[i]);
}

/// A prefix never holds more bytes than the whole sequence.
proof fn lemma_stored_bytes_take_bound(entries: Seq<EntryView>, i: int)
    requires
        0 <= i <= entries.len(),
    ensures
        stored_bytes(entries.take(i)) <= stored_bytes(entries),
    decreases entries.len() - i,
{
    if i == entries.len() {
        assert(entries.take(i) =~= entries);
    } else {
        lemma_stored_bytes_take_succ(entries, i);
        lemma_stored_bytes_take_bound(entries, i + 1);
    }
}

/// Eviction leaves no more stored bytes than the bound.
proof fn lemma_evict_oldest_bounded(entries: Seq<EntryView>, max: int)
    requires
        max >= 0,
    ensures
        stored_bytes(evict_oldest(entries, max)) <= max,
    decreases entries.len(),
{
    if stored_bytes(entries) <= max {
    } else {
        if entries.len() == 0 {
        } else {
            lemma_evict_oldest_bounded(entries.drop_first(), max);
        }
    }
}

/// Eviction removes oldest entries first: what is kept is a suffix of what
/// was stored.
proof fn lemma_evict_oldest_is_suffix(entries: Seq<EntryView>, max: int)
    ensures
        exists|k: int|
            0 <= k <= entries.len() && evict_oldest(entries, max) == entries.skip(k),
    decreases entries.len(),
{
    if stored_bytes(entries) <= max || entries.len() == 0 {
        assert(entries.skip(0) =~= entries);
        assert(evict_oldest(entries, max) == entries.skip(0));
    } else {
        lemma_evict_oldest_is_suffix(entries.drop_first(), max);
        let k0 = choose|k0: int|
            0 <= k0 <= entries.drop_first().len() && evict_oldest(entries.drop_first(), max)
                == entries.drop_first().skip(k0);
        assert(entries.drop_first().skip(k0) =~= entries.skip(k0 + 1));
        assert(evict_oldest(entries, max) == entries.skip(k0 + 1));
    }
}

/// The separator between rendered entries: hex dumps without timestamps are
/// joined by a single space so consecutive dumps stay byte-separated; every
/// other mode joins entries with nothing (timestamped modes already end each
/// entry with a line break).
pub open spec fn render_sep(show_time: bool, hex: bool) -> Seq<char> {
    if hex && !show_time {
        seq![' ']
    } else {
        Seq::empty()
    }
}

/// One entry's rendering: its bytes as hex or as decoded text, and in the
/// timestamped modes a `[time]: ` prefix and a line break.
pub open spec fn entry_rendering(e: EntryView, show_time: bool, hex: bool, code: MsgCode) -> Seq<
    char,
> {
    let body = if hex {
        hex_render(e.bytes)
    } else {
        decoded_text(code, e.bytes)
    };
    if show_time {
        seq!['['] + e.time + seq![']', ':', ' '] + body + seq!['\r', '\n']
    } else {
        body
    }
}

/// The whole rendered output: entries in arrival order, joined by the mode's
/// separator.
pub open spec fn render(entries: Seq<EntryView>, show_time: bool, hex: bool, code: MsgCode) -> Seq<
    char,
>
    decreases entries.len(),
{
    if entries.len() == 0 {
        Seq::empty()
    } else if entries.len() == 1 {
        entry_rendering(entries[0], show_time, hex, code)
    } else {
        render(entries.drop_last(), show_time, hex, code) + render_sep(show_time, hex)
            + entry_rendering(entries.last(), show_time, hex, code)
    }
}

impl MsgView {
    /// Every stored chunk fits the receive counter's range; established by
    /// the constructor and preserved by every operation, it keeps each
    /// chunk within what the codecs accept.
    pub open spec fn wf(self) -> bool {
        forall|i: int|
            0 <= i < self.entries.len() ==> #[trigger] self.entries[i].bytes.len() <= u32::MAX
    }

    /// The accumulator after one append: the chunk is stored with its
    /// capture time, the receive counter grows by the chunk's length, and
    /// oldest entries beyond the retention bound are evicted.
    pub open spec fn with_appended(self, bytes: Seq<u8>, time: Seq<char>) -> MsgView {
        MsgView {
            entries: retained(self.entries.push(EntryView { bytes, time }), self.max_retained),
            recv_count: (self.recv_count + bytes.len()) as u32,
            ..self
        }
    }
}

/// The accumulator of one logical connection: captured chunks with their
/// capture times, cumulative byte counters, and the display configuration
/// applied at render time.
#[derive(Debug)]
pub struct MsgHandle {
    recv_buffer: Vec<BufferTime>,
    recv_show_time: bool,
    recv_hex: bool,
    recv_code: MsgCode,
    recv_count: u32,
    send_count: u32,
    max_retained: Option<u32>,
}

impl View for MsgHandle {
    type V = MsgView;

    closed spec fn view(&self) -> MsgView {
        MsgView {
            entries: entries_view(self.recv_buffer@),
            show_time: self.recv_show_time,
            hex: self.recv_hex,
            code: self.recv_code,
            recv_count: self.recv_count,
            send_count: self.send_count,
            max_retained: self.max_retained,
        }
    }
}

impl MsgHandle {
    /// An empty accumulator: no entries, zero counters, and the default
    /// display configuration (plain text, no timestamps, UTF8, unbounded
    /// retention).
    pub fn new() -> (r: MsgHandle)
        ensures
            r@.entries == Seq::<EntryView>::empty(),
            r@.show_time == false,
            r@.hex == false,
            r@.code == MsgCode::UTF8,
            r@.recv_count == 0,
            r@.send_count == 0,
            r@.max_retained == Option::<u32>::None,
            r@.wf(),
    {
        let r = MsgHandle {
            recv_buffer: Vec::new(),
            recv_show_time: false,
            recv_hex: false,
            recv_code: MsgCode::UTF8,
            recv_count: 0,
            send_count: 0,
            max_retained: None,
        };
        proof {
            assert(r@.entries =~= Seq::<EntryView>::empty());
        }
        r
    }

    /// Cumulative received bytes since the last receive-counter clear.
    pub fn recv_count(&self) -> (r: u32)
        ensures
            r == self@.recv_count,
    {
        self.recv_count
    }

    /// Cumulative sent bytes since the last send-counter clear.
    pub fn send_count(&self) -> (r: u32)
        ensures
            r == self@.send_count,
    {
        self.send_count
    }

    /// Selects whether rendering prefixes each entry with its capture time;
    /// takes effect on the next render.
    pub fn set_display_show_time(&mut self, is_show: bool)
        ensures
            final(self)@ == (MsgView { show_time: is_show, ..old(self)@ }),
    {
        self.recv_show_time = is_show;
    }

    /// Selects hexadecimal or text rendering; takes effect on the next
    /// render.
    pub fn set_display_hex(&mut self, is_hex: bool)
        ensures
            final(self)@ == (MsgView { hex: is_hex, ..old(self)@ }),
    {
        self.recv_hex = is_hex;
    }

    /// Selects the text codec; takes effect on the next render.
    pub fn set_display_code(&mut self, code: MsgCode)
        ensures
            final(self)@ == (MsgView { code: code, ..old(self)@ }),
    {
        self.recv_code = code;
    }

    /// Bounds the stored bytes, or lifts the bound; eviction happens on the
    /// appends that follow.
    pub fn set_max_retained(&mut self, max: Option<u32>)
        ensures
            final(self)@ == (MsgView { max_retained: max, ..old(self)@ }),
    {
        self.max_retained = max;
    }

    /// Zeroes the receive or the send counter, independently; the stored
    /// entries are untouched.
    pub fn clear_count(&mut self, is_recv: bool)
        ensures
            is_recv ==> final(self)@ == (MsgView { recv_count: 0, ..old(self)@ }),
            !is_recv ==> final(self)@ == (MsgView { send_count: 0, ..old(self)@ }),
    {
        if is_recv {
            self.recv_count = 0;
        } else {
            self.send_count = 0;
        }
    }

    /// Drops every stored entry; both counters are untouched.
    pub fn clear_buffer(&mut self)
        ensures
            final(self)@ == (MsgView { entries: Seq::<EntryView>::empty(), ..old(self)@ }),
    {
        self.recv_buffer.clear();
        proof {
            assert(self@.entries =~= Seq::<EntryView>::empty());
        }
    }

    /// Counts bytes handed to the device; the bytes themselves are not
    /// stored.
    pub fn add_send_count(&mut self, buffer: &Vec<u8>)
        requires
            old(self)@.send_count + buffer@.len() <= u32::MAX,
        ensures
            final(self)@ == (MsgView {
                send_count: (old(self)@.send_count + buffer@.len()) as u32,
                ..old(self)@
            }),
    {
        self.send_count = self.send_count + (buffer.len() as u32);
    }
}

/// Relies on `chrono::Local::now` and its `%H:%M:%S%.6f` formatting: the
/// local wall-clock time of the call, with two digits each for hour, minute
/// and second and a fixed six-digit subsecond fraction after a dot —
/// fifteen characters in all.
#[verifier::external_body]
fn now_string() -> (r: String)
    ensures
        r@.len() == 15,
{
    format!("{}", chrono::Local::now().format("%H:%M:%S%.6f"))
}

/// Whether the stored chunks hold more bytes together than `max`, computed
/// without ever summing past the bound.
fn stored_exceeds(entries: &Vec<BufferTime>, max: u32) -> (r: bool)
    ensures
        r == (stored_bytes(entries_view(entries@)) > max as int),
{
    let mut acc: u32 = 0;
    let mut i: usize = 0;
    while i < entries.len()
        invariant
            i <= entries@.len(),
            acc as int == stored_bytes(entries_view(entries@).take(i as int)),
            acc <= max,
        decreases entries@.len() - i,
    {
        proof {
            lemma_stored_bytes_take_succ(entries_view(entries@), i as int);
            assert(entries_view(entries@)[i as int] == entries@[i as int]@);
        }
        let l = entries[i].buffer.len();
        if l > (max - acc) as usize {
            proof {
                lemma_stored_bytes_take_bound(entries_view(entries@), i as int + 1);
            }
            return true;
        }
        acc = acc + (l as u32);
        i += 1;
    }
    proof {
        assert(entries_view(entries@).take(entries@.len() as int) =~= entries_view(entries@));
    }
    false
}

/// Removes oldest chunks, whole chunks at a time, until the stored bytes
/// fit the bound.
fn evict_entries(entries: &mut Vec<BufferTime>, max: u32)
    ensures
        entries_view(final(entries)@) == evict_oldest(entries_view(old(entries)@), max as int),
{
    while stored_exceeds(entries, max)
        invariant
            evict_oldest(entries_view(entries@), max as int) == evict_oldest(
                entries_view(old(entries)@),
                max as int,
            ),
        decreases entries@.len(),
    {
        let ghost prev = entries_view(entries@);
        proof {
            lemma_stored_bytes_nonneg(prev);
            assert(prev.len() > 0);
        }
        entries.remove(0);
        proof {
            assert(entries_view(entries@) =~= prev.drop_first());
            assert(evict_oldest(prev, max as int) == evict_oldest(prev.drop_first(), max as int));
        }
    }
}

impl MsgHandle {
    /// Records one received chunk under the given capture time: the entry
    /// is appended in arrival order, the receive counter grows by the
    /// chunk's length, and oldest entries beyond the retention bound are
    /// evicted.
    pub fn add_buffer_at(&mut self, buffer: Vec<u8>, time: String)
        requires
            old(self)@.wf(),
            old(self)@.recv_count + buffer@.len() <= u32::MAX,
        ensures
            final(self)@ == old(self)@.with_appended(buffer@, time@),
            final(self)@.wf(),
    {
        let ghost pre = self@;
        let ghost e = EntryView { bytes: buffer@, time: time@ };
        let len = buffer.len();
        self.recv_count = self.recv_count + (len as u32);
        self.recv_buffer.push(BufferTime { buffer, time });
        proof {
            assert(entries_view(self.recv_buffer@) =~= pre.entries.push(e));
        }
        match self.max_retained {
            Option::None => {},
            Option::Some(n) => {
                evict_entries(&mut self.recv_buffer, n);
            },
        }
        proof {
            let pushed = pre.entries.push(e);
            assert(self@.entries == retained(pushed, pre.max_retained));
            assert(self@ =~= pre.with_appended(e.bytes, e.time));
            assert forall|i: int| 0 <= i < pushed.len() implies #[trigger] pushed[i].bytes.len()
                <= u32::MAX by {
                if i < pre.entries.len() {
                    assert(pre.entries[i].bytes.len() <= u32::MAX);
                }
            }
            match pre.max_retained {
                Option::None => {},
                Option::Some(n) => {
                    lemma_evict_oldest_is_suffix(pushed, n as int);
                    let k = choose|k: int|
                        0 <= k <= pushed.len() && evict_oldest(pushed, n as int) == pushed.skip(k);
                    assert forall|i: int|
                        0 <= i < self@.entries.len() implies #[trigger] self@.entries[i].bytes.len()
                        <= u32::MAX by {
                        assert(self@.entries[i] == pushed[i + k]);
                    }
                },
            }
        }
    }

    /// Records one received chunk, captured now: the chunk is stored under
    /// the current wall-clock time (rendered as fifteen characters), the
    /// receive counter grows by the chunk's length, and oldest entries
    /// beyond the retention bound are evicted.
    pub fn add_buffer(&mut self, buffer: Vec<u8>)
        requires
            old(self)@.wf(),
            old(self)@.recv_count + buffer@.len() <= u32::MAX,
        ensures
            exists|t: Seq<char>|
                final(self)@ == #[trigger] old(self)@.with_appended(buffer@, t) && t.len() == 15,
            final(self)@.wf(),
    {
        let ghost pre = self@;
        let ghost b = buffer@;
        let time = now_string();
        let ghost t = time@;
        self.add_buffer_at(buffer, time);
        proof {
            assert(self@ == pre.with_appended(b, t) && t.len() == 15);
        }
    }
}

proof fn lemma_render_take_succ(
    entries: Seq<EntryView>,
    show_time: bool,
    hex: bool,
    code: MsgCode,
    i: int,
)
    requires
        0 <= i < entries.len(),
    ensures
        i == 0 ==> render(entries.take(1), show_time, hex, code) == entry_rendering(
            entries[0],
            show_time,
            hex,
            code,
        ),
        i > 0 ==> render(entries.take(i + 1), show_time, hex, code) == render(
            entries.take(i),
            show_time,
            hex,
            code,
        ) + render_sep(show_time, hex) + entry_rendering(entries[i], show_time, hex, code),
{
    let tk = entries.take(i + 1);
    assert(tk.drop_last() =~= entries.take(i));
    assert(tk.last() == entries[i]);
}

impl MsgHandle {
    /// Renders every stored chunk under the current display configuration:
    /// timestamped modes produce one `[time]: ` prefixed line per chunk,
    /// plain hex dumps are joined by single spaces, and plain text is
    /// joined with no separator. A chunk the codec cannot decode renders
    /// as the empty string rather than aborting the render.
    pub fn recv_buffer_to_string(&self) -> (r: String)
        requires
            self@.wf(),
        ensures
            r@ == render(self@.entries, self@.show_time, self@.hex, self@.code),
    {
        let ghost es = self@.entries;
        let mut out = String::new();
        let mut i: usize = 0;
        while i < self.recv_buffer.len()
            invariant
                self@.wf(),
                i <= self.recv_buffer@.len(),
                es == self@.entries,
                self.recv_buffer@.len() == es.len(),
                out@ == render(es.take(i as int), self@.show_time, self@.hex, self@.code),
            decreases self.recv_buffer@.len() - i,
        {
            proof {
                lemma_render_take_succ(es, self@.show_time, self@.hex, self@.code, i as int);
                assert(es[i as int] == self.recv_buffer@[i as int]@);
                reveal_strlit(" ");
                reveal_strlit("[");
                reveal_strlit("]: ");
                reveal_strlit("\r\n");
            }
            if i > 0 && self.recv_hex && !self.recv_show_time {
                out.append(" ");
                proof {
                    assert(" "@ =~= seq![' ']);
                    assert(" "@ =~= render_sep(self@.show_time, self@.hex));
                }
            }
            let entry = &self.recv_buffer[i];
            let body: String = if self.recv_hex {
                hex_of_bytes(&entry.buffer)
            } else {
                decode_or_empty(&self.recv_code, &entry.buffer)
            };
            if self.recv_show_time {
                out.append("[");
                out.append(entry.time.as_str());
                out.append("]: ");
                out.append(body.as_str());
                out.append("\r\n");
                proof {
                    assert("["@ =~= seq!['[']);
                    assert("]: "@ =~= seq![']', ':', ' ']);
                    assert("\r\n"@ =~= seq!['\r', '\n']);
                }
            } else {
                out.append(body.as_str());
            }
            proof {
                assert(out@ == render(es.take(i as int + 1), self@.show_time, self@.hex, self@.code));
            }
            i += 1;
        }
        proof {
            assert(es.take(es.len() as int) =~= es);
        }
        out
    }
}

/// The accumulator run forward over a whole sequence of appends, each a
/// chunk with its capture time.
pub open spec fn append_all(m: MsgView, chunks: Seq<(Seq<u8>, Seq<char>)>) -> MsgView
    decreases chunks.len(),
{
    if chunks.len() == 0 {
        m
    } else {
        append_all(m.with_appended(chunks[0].0, chunks[0].1), chunks.drop_first())
    }
}

/// The summed length of a sequence of chunks.
pub open spec fn total_len(chunks: Seq<(Seq<u8>, Seq<char>)>) -> int
    decreases chunks.len(),
{
    if chunks.len() == 0 {
        0
    } else {
        chunks[0].0.len() + total_len(chunks.drop_first())
    }
}

proof fn lemma_total_len_nonneg(chunks: Seq<(Seq<u8>, Seq<char>)>)
    ensures
        total_len(chunks) >= 0,
    decreases chunks.len(),
{
    if chunks.len() > 0 {
        lemma_total_len_nonneg(chunks.drop_first());
    }
}

/// Appends only ever add to the receive counter: any run of appends grows
/// it by exactly the sum of the appended lengths.
pub proof fn lemma_appends_accumulate(m: MsgView, chunks: Seq<(Seq<u8>, Seq<char>)>)
    requires
        m.recv_count + total_len(chunks) <= u32::MAX,
    ensures
        append_all(m, chunks).recv_count == m.recv_count + total_len(chunks),
    decreases chunks.len(),
{
    if chunks.len() > 0 {
        lemma_total_len_nonneg(chunks.drop_first());
        let m1 = m.with_appended(chunks[0].0, chunks[0].1);
        lemma_appends_accumulate(m1, chunks.drop_first());
    }
}

/// After the receive counter is cleared, any run of appends leaves it equal
/// to the sum of the appended chunk lengths.
pub proof fn lemma_recv_count_is_sum_since_clear(m: MsgView, chunks: Seq<(Seq<u8>, Seq<char>)>)
    requires
        total_len(chunks) <= u32::MAX,
    ensures
        append_all(MsgView { recv_count: 0, ..m }, chunks).recv_count == total_len(chunks),
{
    lemma_appends_accumulate(MsgView { recv_count: 0, ..m }, chunks);
}

/// An emptied buffer renders as the empty string, whatever the display
/// configuration; clearing touches no counter (see `clear_buffer`).
pub proof fn lemma_cleared_buffer_renders_empty(show_time: bool, hex: bool, code: MsgCode)
    ensures
        render(Seq::<EntryView>::empty(), show_time, hex, code) == Seq::<char>::empty(),
{
}

/// Rendering two stored chunks with timestamps and hex gives exactly two
/// lines in append order, each a `[time]: ` prefix, the chunk's hex dump,
/// and a line break.
pub proof fn lemma_two_entries_render_two_lines(e0: EntryView, e1: EntryView, code: MsgCode)
    ensures
        render(seq![e0, e1], true, true, code) == entry_rendering(e0, true, true, code)
            + entry_rendering(e1, true, true, code),
        entry_rendering(e0, true, true, code) == seq!['['] + e0.time + seq![']', ':', ' ']
            + hex_render(e0.bytes) + seq!['\r', '\n'],
{
    let s = seq![e0, e1];
    assert(s.drop_last() =~= seq![e0]);
    assert(s.last() == e1);
    assert(render(seq![e0], true, true, code) == entry_rendering(e0, true, true, code));
    assert(render(s, true, true, code) =~= entry_rendering(e0, true, true, code)
        + entry_rendering(e1, true, true, code));
}

/// Rendering two stored chunks as plain text (no timestamps, no hex) puts
/// their decoded texts side by side with no separator between them.
pub proof fn lemma_text_entries_join_without_separator(e0: EntryView, e1: EntryView, code: MsgCode)
    ensures
        render(seq![e0, e1], false, false, code) == decoded_text(code, e0.bytes) + decoded_text(
            code,
            e1.bytes,
        ),
{
    let s = seq![e0, e1];
    assert(s.drop_last() =~= seq![e0]);
    assert(s.last() == e1);
    assert(render(seq![e0], false, false, code) == entry_rendering(e0, false, false, code));
    assert(render(s, false, false, code) =~= decoded_text(code, e0.bytes) + decoded_text(
        code,
        e1.bytes,
    ));
}

/// Under a retention bound, an append keeps the stored bytes within the
/// bound, and what survives is a suffix of the stored entries: oldest
/// entries leave first, whole entries at a time.
pub proof fn lemma_retention_bounds_buffer(m: MsgView, bytes: Seq<u8>, time: Seq<char>, n: u32)
    requires
        m.max_retained == Option::Some(n),
    ensures
        stored_bytes(m.with_appended(bytes, time).entries) <= n as int,
        exists|k: int|
            0 <= k <= m.entries.len() + 1 && m.with_appended(bytes, time).entries
                == #[trigger] m.entries.push(EntryView { bytes, time }).skip(k),
{
    let pushed = m.entries.push(EntryView { bytes, time });
    lemma_evict_oldest_bounded(pushed, n as int);
    lemma_evict_oldest_is_suffix(pushed, n as int);
}

} // verus!
