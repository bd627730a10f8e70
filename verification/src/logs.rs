//! Container logs: from the daemon's raw chunks to lines with a local clock reading.
use crate::clock;
use crate::clock::Moment;
use crate::text;
use vstd::prelude::*;
use vstd::string::StringExecFns;

verus! {

/// Lines of log that are asked for, counted from the end.
pub const LOG_TAIL_LINES: u32 = 50;

/// `String::from_utf8`: the text that the bytes encode, `None` where they are not UTF-8.
#[verifier::external_body]
fn from_utf8(bytes: Vec<u8>) -> (decoded: Option<String>)
    ensures
        decoded is Some <==> vstd::utf8::valid_utf8(bytes@),
        decoded matches Some(s) ==> s@ == vstd::utf8::decode_utf8(bytes@),
{
    String::from_utf8(bytes).ok()
}

/// The time stamp and the message of a chunk, parted by its first space. `None` for bytes that
/// are not UTF-8 and for text without a space.
pub open spec fn stamp_and_message(chunk: Seq<u8>) -> Option<(Seq<char>, Seq<char>)> {
    if vstd::utf8::valid_utf8(chunk) {
        text::split_first(vstd::utf8::decode_utf8(chunk), ' ')
    } else {
        None
    }
}

/// The instant and the message of a chunk; `None` also where the stamp is not an RFC 3339 one.
pub open spec fn entry_of(chunk: Seq<u8>) -> Option<((i64, u32), Seq<char>)> {
    match stamp_and_message(chunk) {
        Some((stamp, message)) => match clock::rfc3339_instant(stamp) {
            Some(instant) => Some((instant, message)),
            None => None,
        },
        None => None,
    }
}

/// The line for a message logged at `instant`, on a clock `offset` seconds ahead of UTC.
pub open spec fn line_text(instant: (i64, u32), message: Seq<char>, offset: int) -> Seq<char> {
    "["@ + clock::clock_text(instant.0 + offset, instant.1 as nat) + "] "@ + text::trimmed(message)
        + "\n"@
}

/// What a chunk adds to the log.
pub open spec fn chunk_text(chunk: Seq<u8>, offset: int) -> Seq<char> {
    match entry_of(chunk) {
        Some((instant, message)) => line_text(instant, message, offset),
        None => Seq::empty(),
    }
}

/// The bytes of each chunk.
pub open spec fn bytes_of(chunks: Seq<Vec<u8>>) -> Seq<Seq<u8>> {
    Seq::new(chunks.len(), |i: int| chunks[i]@)
}

/// The log of a list of chunks, each shown with its own offset.
pub open spec fn log_text(chunks: Seq<Seq<u8>>, offsets: Seq<int>) -> Seq<char>
    decreases chunks.len(),
{
    if chunks.len() == 0 {
        Seq::empty()
    } else {
        log_text(chunks.drop_last(), offsets) + chunk_text(
            chunks.last(),
            offsets[chunks.len() - 1],
        )
    }
}

/// Whether there is a possible clock offset for each chunk.
pub open spec fn possible_offsets(offsets: Seq<int>, chunks: nat) -> bool {
    &&& offsets.len() == chunks
    &&& forall|i: int| 0 <= i < offsets.len() ==> clock::valid_offset(#[trigger] offsets[i])
}

/// A log message and its instant.
pub struct LogLine {
    pub moment: Moment,
    pub message: String,
}

/// Parts a chunk into its time stamp and its message.
pub fn split_chunk(chunk: Vec<u8>) -> (parts: Option<(String, String)>)
    ensures
        parts is Some <==> stamp_and_message(chunk@) is Some,
        parts matches Some(p) ==> stamp_and_message(chunk@) == Some((p.0@, p.1@)),
{
    match from_utf8(chunk) {
        Some(decoded) => text::split_once(decoded.as_str(), ' '),
        None => None,
    }
}

/// Reads the instant and the message of a chunk.
pub fn read_chunk(chunk: Vec<u8>) -> (line: Option<LogLine>)
    ensures
        line is Some <==> entry_of(chunk@) is Some,
        line matches Some(l) ==> entry_of(chunk@) == Some((l.moment.instant(), l.message@)),
{
    match split_chunk(chunk) {
        Some((stamp, message)) => match Moment::parse(stamp.as_str()) {
            Some(moment) => Some(LogLine { moment, message }),
            None => None,
        },
        None => None,
    }
}

/// Writes a log line on a clock `offset` seconds ahead of UTC.
pub fn render_line(line: &LogLine, offset: i32) -> (rendered: String)
    requires
        clock::valid_offset(offset as int),
    ensures
        rendered@ == line_text(line.moment.instant(), line.message@, offset as int),
{
    let mut rendered: String = "[".to_owned();
    rendered.append(line.moment.clock_label(offset).as_str());
    rendered.append("] ");
    rendered.append(text::trim(line.message.as_str()).as_str());
    rendered.append("\n");
    rendered
}

/// Writes the log of a list of chunks on the machine's local clock. Chunks that are not a stamped
/// message are left out.
pub fn render_chunks(chunks: Vec<Vec<u8>>) -> (logs: String)
    ensures
        exists|offsets: Seq<int>|
            possible_offsets(offsets, chunks@.len()) && logs@ == #[trigger] log_text(
                bytes_of(chunks@),
                offsets,
            ),
{
    let mut logs: String = String::new();
    let ghost mut offsets: Seq<int> = Seq::empty();
    let ghost all = bytes_of(chunks@);
    assert(all.take(0) =~= Seq::empty());
    for chunk in it: chunks
        invariant
            it.seq() == chunks@,
            all == bytes_of(chunks@),
            possible_offsets(offsets, it.index() as nat),
            logs@ == log_text(all.take(it.index()), offsets),
    {
        let ghost i = it.index();
        let ghost before = logs@;
        let ghost bytes = chunk@;
        let mut offset: i32 = 0;
        match read_chunk(chunk) {
            Some(line) => {
                offset = line.moment.local_offset();
                logs.append(render_line(&line, offset).as_str());
            },
            None => {},
        }
        proof {
            let next = offsets.push(offset as int);
            assert(all[i] == bytes);
            assert(all.take(i + 1).drop_last() =~= all.take(i));
            log_ignores_later_offsets(all.take(i), offsets, next);
            assert(logs@ =~= before + chunk_text(bytes, offset as int));
            offsets = next;
        }
    }
    assert(all.take(all.len() as int) =~= all);
    logs
}

proof fn log_ignores_later_offsets(chunks: Seq<Seq<u8>>, a: Seq<int>, b: Seq<int>)
    requires
        chunks.len() <= a.len(),
        chunks.len() <= b.len(),
        forall|i: int| 0 <= i < chunks.len() ==> a[i] == b[i],
    ensures
        log_text(chunks, a) == log_text(chunks, b),
    decreases chunks.len(),
{
    if chunks.len() > 0 {
        log_ignores_later_offsets(chunks.drop_last(), a, b);
    }
}

/// The log of two lists of chunks together is the log of the first, then that of the second.
pub proof fn logs_concatenate(a: Seq<Seq<u8>>, b: Seq<Seq<u8>>, oa: Seq<int>, ob: Seq<int>)
    requires
        oa.len() == a.len(),
        ob.len() == b.len(),
    ensures
        log_text(a + b, oa + ob) == log_text(a, oa) + log_text(b, ob),
    decreases b.len(),
{
    if b.len() == 0 {
        assert(a + b =~= a);
        assert(oa + ob =~= oa);
        assert(log_text(a, oa) + Seq::empty() =~= log_text(a, oa));
    } else {
        logs_concatenate(a, b.drop_last(), oa, ob.drop_last());
        assert((a + b).drop_last() =~= a + b.drop_last());
        log_ignores_later_offsets(a + b.drop_last(), oa + ob.drop_last(), oa + ob);
        log_ignores_later_offsets(b.drop_last(), ob.drop_last(), ob);
        assert(log_text(a + b, oa + ob) =~= log_text(a, oa) + log_text(b, ob));
    }
}

/// A log that is not empty ends with a line feed.
pub proof fn logs_end_with_a_line_feed(chunks: Seq<Seq<u8>>, offsets: Seq<int>)
    ensures
        log_text(chunks, offsets).len() > 0 ==> log_text(chunks, offsets).last() == '\n',
    decreases chunks.len(),
{
    reveal_strlit("\n");
    if chunks.len() > 0 {
        logs_end_with_a_line_feed(chunks.drop_last(), offsets);
    }
}

/// A message is shown without the whitespace around it, so two messages that differ by nothing
/// else are shown alike.
pub proof fn surrounding_whitespace_is_not_shown(
    instant: (i64, u32),
    message: Seq<char>,
    offset: int,
)
    ensures
        line_text(instant, text::trimmed(message), offset) == line_text(instant, message, offset),
{
    text::trimmed_is_tight(message);
}

/// Chunks that are not UTF-8, have no space or no time stamp before it leave no trace.
pub proof fn unreadable_chunks_leave_no_trace(chunks: Seq<Seq<u8>>, offsets: Seq<int>)
    requires
        forall|i: int| 0 <= i < chunks.len() ==> entry_of(#[trigger] chunks[i]) is None,
    ensures
        log_text(chunks, offsets) == Seq::<char>::empty(),
    decreases chunks.len(),
{
    if chunks.len() > 0 {
        assert(entry_of(chunks[chunks.len() - 1]) is None);
        unreadable_chunks_leave_no_trace(chunks.drop_last(), offsets);
        assert(log_text(chunks, offsets) =~= Seq::empty());
    }
}

/// A log line is a clock reading in brackets, a space, the message and a line feed. Of a message
/// that neither begins nor ends with whitespace nothing is lost, whatever its length.
pub proof fn lines_hold_the_whole_message(
    line: LogLine,
    offset: i32,
    rendered: String,
    time: String,
)
    requires
        call_ensures(render_line, (&line, offset), rendered),
        call_ensures(Moment::clock_label, (line.moment, offset), time),
        line.message@.len() > 0 ==> !text::whitespace(line.message@[0]) && !text::whitespace(
            line.message@.last(),
        ),
    ensures
        rendered@.len() == line.message@.len() + 12,
        rendered@[0] == '[',
        rendered@.subrange(1, 9) == time@,
        rendered@[9] == ']',
        rendered@[10] == ' ',
        rendered@.subrange(11, rendered@.len() - 1) == line.message@,
        rendered@.last() == '\n',
{
    reveal_strlit("[");
    reveal_strlit("] ");
    reveal_strlit("\n");
    let none = Seq::<char>::empty();
    text::trimmed_is_the_middle(none, line.message@, none);
    assert(none + line.message@ + none =~= line.message@);
    assert(time@.len() == 8);
    assert(rendered@.subrange(1, 9) =~= time@);
    assert(rendered@.subrange(11, rendered@.len() - 1) =~= line.message@);
}

/// Whitespace around a message makes no difference to its line: it is shown as the message inside.
pub proof fn whitespace_around_a_message_is_dropped(
    line: LogLine,
    bare: LogLine,
    before: Seq<char>,
    after: Seq<char>,
    offset: i32,
    rendered: String,
    expected: String,
)
    requires
        call_ensures(render_line, (&line, offset), rendered),
        call_ensures(render_line, (&bare, offset), expected),
        line.moment == bare.moment,
        line.message@ == before + bare.message@ + after,
        forall|i: int| 0 <= i < before.len() ==> text::whitespace(#[trigger] before[i]),
        forall|i: int| 0 <= i < after.len() ==> text::whitespace(#[trigger] after[i]),
        bare.message@.len() > 0 ==> !text::whitespace(bare.message@[0]) && !text::whitespace(
            bare.message@.last(),
        ),
    ensures
        rendered@ == expected@,
{
    let none = Seq::<char>::empty();
    text::trimmed_is_the_middle(before, bare.message@, after);
    text::trimmed_is_the_middle(none, bare.message@, none);
    assert(none + bare.message@ + none =~= bare.message@);
}

/// A chunk that encodes a stamp, a space and a message is parted into the two; bytes that are not
/// UTF-8 and text without a space are not parted.
pub proof fn chunks_are_parted_at_the_space(
    chunk: Vec<u8>,
    stamp: Seq<char>,
    message: Seq<char>,
    parts: Option<(String, String)>,
)
    requires
        call_ensures(split_chunk, (chunk,), parts),
    ensures
        !vstd::utf8::valid_utf8(chunk@) ==> parts is None,
        vstd::utf8::valid_utf8(chunk@) && !vstd::utf8::decode_utf8(chunk@).contains(' ')
            ==> parts is None,
        vstd::utf8::valid_utf8(chunk@) && vstd::utf8::decode_utf8(chunk@) == stamp + seq![' ']
            + message && !stamp.contains(' ') ==> (parts matches Some(p) && p.0@ == stamp && p.1@
            == message),
{
    entry_parts(chunk@, stamp, message);
}

proof fn entry_parts(chunk: Seq<u8>, stamp: Seq<char>, message: Seq<char>)
    ensures
        !vstd::utf8::valid_utf8(chunk) ==> stamp_and_message(chunk) is None,
        vstd::utf8::valid_utf8(chunk) && !vstd::utf8::decode_utf8(chunk).contains(' ')
            ==> stamp_and_message(chunk) is None,
        vstd::utf8::valid_utf8(chunk) && vstd::utf8::decode_utf8(chunk) == stamp + seq![' ']
            + message && !stamp.contains(' ') ==> stamp_and_message(chunk) == Some(
            (stamp, message),
        ),
{
    let s = vstd::utf8::decode_utf8(chunk);
    text::first_position_is_first(s, ' ');
    if s == stamp + seq![' '] + message && !stamp.contains(' ') {
        let k = text::first_position(s, ' ') as int;
        assert(s[stamp.len() as int] == ' ');
        if k < stamp.len() {
            assert(stamp[k] == ' ');
        }
        assert(k == stamp.len());
        assert(s.take(k) =~= stamp);
        assert(s.skip(k + 1) =~= message);
    }
}

/// A chunk of a time stamp, a space and a message is read as the instant that the stamp names and
/// the message in full. Every other chunk is left out.
pub proof fn stamped_messages_are_read(
    chunk: Vec<u8>,
    stamp: Seq<char>,
    message: Seq<char>,
    line: Option<LogLine>,
)
    requires
        call_ensures(read_chunk, (chunk,), line),
    ensures
        !vstd::utf8::valid_utf8(chunk@) ==> line is None,
        vstd::utf8::valid_utf8(chunk@) && !vstd::utf8::decode_utf8(chunk@).contains(' ')
            ==> line is None,
        vstd::utf8::valid_utf8(chunk@) && vstd::utf8::decode_utf8(chunk@) == stamp + seq![' ']
            + message && !stamp.contains(' ') ==> {
            &&& line is Some <==> clock::rfc3339_instant(stamp) is Some
            &&& line matches Some(l) ==> l.message@ == message && clock::rfc3339_instant(stamp)
                == Some((l.moment.secs(), l.moment.nanos()))
        },
{
    entry_parts(chunk@, stamp, message);
}

/// A log of one chunk is the line of that chunk, and nothing where the chunk cannot be read.
pub proof fn log_of_one_chunk(
    chunk: Vec<u8>,
    line: Option<LogLine>,
    offset: i32,
    rendered: String,
)
    requires
        call_ensures(read_chunk, (chunk,), line),
        line matches Some(l) ==> call_ensures(render_line, (&l, offset), rendered),
        line is None ==> rendered@ == Seq::<char>::empty(),
    ensures
        log_text(seq![chunk@], seq![offset as int]) == rendered@,
{
    let chunks = seq![chunk@];
    let offsets = seq![offset as int];
    assert(chunks.drop_last() =~= Seq::empty());
    assert(log_text(chunks.drop_last(), offsets) == Seq::<char>::empty());
    assert(Seq::<char>::empty() + rendered@ =~= rendered@);
}

/// The log of all chunks is what the chunks give one after the other, each with a clock offset of
/// less than a day.
pub proof fn logs_are_made_of_their_chunks(chunks: Vec<Vec<u8>>, bytes: Seq<Seq<u8>>, logs: String)
    requires
        call_ensures(render_chunks, (chunks,), logs),
        bytes.len() == chunks@.len(),
        forall|i: int| 0 <= i < bytes.len() ==> #[trigger] bytes[i] == chunks@[i]@,
    ensures
        exists|offsets: Seq<int>|
            offsets.len() == bytes.len() && (forall|i: int|
                0 <= i < offsets.len() ==> -86_400 < #[trigger] offsets[i] < 86_400) && logs@
                == #[trigger] log_text(bytes, offsets),
{
    assert(bytes =~= bytes_of(chunks@));
    let offsets = choose|offsets: Seq<int>|
        possible_offsets(offsets, chunks@.len()) && logs@ == #[trigger] log_text(
            bytes_of(chunks@),
            offsets,
        );
    assert forall|i: int| 0 <= i < offsets.len() implies -86_400 < #[trigger] offsets[i]
        < 86_400 by {
        assert(clock::valid_offset(offsets[i]));
    }
}

/// Fifty lines of a log are asked for.
pub proof fn fifty_lines_are_asked_for()
    ensures
        LOG_TAIL_LINES == 50,
{
}

} // verus!
