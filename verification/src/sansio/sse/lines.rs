//! What each line of an event stream does.
use vstd::prelude::*;
use vstd::string::*;
use vstd::utf8::{decode_utf8, valid_utf8};

use super::{
    ends_line, lemma_byte_from, lemma_data_field, lemma_first_line_end, line_step, next_of, step,
    DecoderModel, EventModel, SseDecoder, SseError, SseEvent, Step,
};

verus! {

/// A line of data is put behind the data of the event, with a line feed; one
/// space behind the colon is not part of it. No event comes of it yet.
pub proof fn law_data_lines_are_put_behind(d: DecoderModel, value: Seq<u8>)
    requires
        valid_utf8(value),
    ensures
        ({
            let after = DecoderModel {
                data: (d.data + decode_utf8(value)).push('\n'),
                has_data_field: true,
                ..d
            };
            let name = seq![100u8, 97, 116, 97, 58];
            &&& line_step(d, name + seq![32u8] + value) == Step::Quiet(after)
            &&& value.len() == 0 || value[0] != 32 ==> line_step(d, name + value) == Step::Quiet(
                after,
            )
        }),
{
    lemma_data_field();
    let name = seq![100u8, 97, 116, 97, 58];
    let a = name + seq![32u8] + value;
    lemma_byte_from(a, 58, 0, 4);
    assert(super::field_bytes(a) =~= seq![100u8, 97, 116, 97]);
    assert(super::value_bytes(a) =~= value);
    let b = name + value;
    lemma_byte_from(b, 58, 0, 4);
    assert(super::field_bytes(b) =~= seq![100u8, 97, 116, 97]);
    if value.len() == 0 || value[0] != 32 {
        assert(super::value_bytes(b) =~= value);
    }
}

/// An empty line ends the event: its data comes out without the last line
/// feed, and the next event starts with nothing. Where there was no data, no
/// event comes out.
pub proof fn law_empty_lines_end_events(d: DecoderModel, data: Seq<char>)
    ensures
        d.has_data_field && d.data == data.push('\n') ==> line_step(d, Seq::empty())
            == Step::Emit(
            DecoderModel { data: Seq::empty(), has_data_field: false, ..d },
            EventModel::Message { data },
        ),
        !d.has_data_field ==> line_step(d, Seq::empty()) == Step::Quiet(d),
{
    assert(data.push('\n').drop_last() =~= data);
}

/// A line that starts with a colon is a comment: it comes out at once, without
/// one space at its start, and the event under way is not touched.
pub proof fn law_comments_come_out_at_once(d: DecoderModel, text: Seq<u8>)
    ensures
        valid_utf8(text) ==> ({
            let said = decode_utf8(text);
            line_step(d, seq![58u8] + text) == Step::Emit(
                d,
                EventModel::Comment(
                    if said.len() > 0 && said[0] == ' ' {
                        said.subrange(1, said.len() as int)
                    } else {
                        said
                    },
                ),
            )
        }),
        !valid_utf8(text) ==> line_step(d, seq![58u8] + text) == Step::Fail(
            DecoderModel { error: Some(SseError::InvalidUtf8), ..d },
            SseError::InvalidUtf8,
        ),
{
    assert((seq![58u8] + text).skip(1) =~= text);
    let said = decode_utf8(text);
    if said.len() > 0 {
        assert(said.skip(1) =~= said.subrange(1, said.len() as int));
    }
}

/// A line with another field than data does nothing.
pub proof fn law_other_fields_do_nothing(d: DecoderModel, name: Seq<u8>, value: Seq<u8>)
    requires
        name.len() > 0,
        forall|i: int| 0 <= i < name.len() ==> #[trigger] name[i] != 58,
        valid_utf8(name),
        decode_utf8(name) != "data"@,
        valid_utf8(value),
        value.len() == 0 || value[0] != 32,
    ensures
        line_step(d, name + seq![58u8] + value) == Step::Quiet(d),
        line_step(d, name + seq![58u8, 32u8] + value) == Step::Quiet(d),
{
    let n = name.len() as int;
    let a = name + seq![58u8] + value;
    assert forall|i: int| 0 <= i < n implies #[trigger] a[i] != 58 by {
        assert(a[i] == name[i]);
    }
    lemma_byte_from(a, 58, 0, n);
    assert(super::field_bytes(a) =~= name);
    assert(super::value_bytes(a) =~= value);
    let b = name + seq![58u8, 32u8] + value;
    assert forall|i: int| 0 <= i < n implies #[trigger] b[i] != 58 by {
        assert(b[i] == name[i]);
    }
    lemma_byte_from(b, 58, 0, n);
    assert(super::field_bytes(b) =~= name);
    assert(super::value_bytes(b) =~= value);
}

/// A line feed, a carriage return and both in a row end a line alike: the line
/// has its effect without them, and the rest is left.
pub proof fn law_line_ends_are_alike(d: DecoderModel, line: Seq<u8>, rest: Seq<u8>)
    requires
        line.len() <= d.limit,
        forall|i: int| 0 <= i < line.len() ==> #[trigger] line[i] != 10 && line[i] != 13,
    ensures
        ({
            let after = line_step(DecoderModel { buf: rest, ..d }, line);
            &&& step(DecoderModel { buf: line + seq![10u8] + rest, ..d }) == after
            &&& step(DecoderModel { buf: line + seq![13u8, 10u8] + rest, ..d }) == after
            &&& rest.len() > 0 && rest[0] != 10 ==> step(
                DecoderModel { buf: line + seq![13u8] + rest, ..d },
            ) == after
        }),
{
    let n = line.len() as int;
    let a = line + seq![10u8] + rest;
    let b = line + seq![13u8, 10u8] + rest;
    let c = line + seq![13u8] + rest;
    assert forall|i: int| 0 <= i < n implies !ends_line(a[i]) && !ends_line(b[i]) && !ends_line(
        c[i],
    ) by {
        assert(a[i] == line[i] && b[i] == line[i] && c[i] == line[i]);
    }
    assert(a[n] == 10);
    assert(b[n] == 13 && b[n + 1] == 10);
    assert(c[n] == 13);
    lemma_first_line_end(a, 0, n);
    lemma_first_line_end(b, 0, n);
    lemma_first_line_end(c, 0, n);
    assert(a.take(n) =~= line);
    assert(b.take(n) =~= line);
    assert(c.take(n) =~= line);
    assert(a.skip(n + 1) =~= rest);
    assert(b.skip(n + 2) =~= rest);
    assert(c.skip(n + 1) =~= rest);
    if rest.len() > 0 {
        assert(c[n + 1] == rest[0]);
    }
}

/// A line that is longer than the limit is refused, and one that is not yet
/// complete and not too long is waited for.
pub proof fn law_only_long_lines_are_refused(d: DecoderModel, line: Seq<u8>)
    requires
        d.buf == line,
        forall|i: int| 0 <= i < line.len() ==> #[trigger] line[i] != 10 && line[i] != 13,
    ensures
        line.len() > d.limit ==> step(d) is Fail,
        line.len() <= d.limit ==> step(d) is Stop,
{
    let n = line.len() as int;
    assert forall|i: int| 0 <= i < n implies !ends_line(d.buf[i]) by {
        assert(d.buf[i] == line[i]);
    }
    lemma_no_line_end(d.buf, 0);
}

proof fn lemma_no_line_end(buf: Seq<u8>, from: int)
    requires
        0 <= from <= buf.len(),
        forall|i: int| from <= i < buf.len() ==> !ends_line(buf[i]),
    ensures
        super::line_end(buf, from) == buf.len(),
    decreases buf.len() - from,
{
    if from < buf.len() {
        lemma_no_line_end(buf, from + 1);
    }
}

/// Bytes that come in are put behind those that are there, and nothing else
/// changes.
pub proof fn law_bytes_are_put_behind(decoder: &mut SseDecoder, chunk: &[u8])
    requires
        call_ensures(SseDecoder::feed, (decoder, chunk), ()),
    ensures
        final(decoder)@.buf == old(decoder)@.buf + chunk@,
        final(decoder)@.data == old(decoder)@.data,
        final(decoder)@.has_data_field == old(decoder)@.has_data_field,
        final(decoder)@.limit == old(decoder)@.limit,
        final(decoder)@.error == old(decoder)@.error,
{
}

/// A decoder starts with nothing, and with the limit that it is given.
pub proof fn law_decoders_start_empty(limit: usize, r: SseDecoder)
    requires
        call_ensures(SseDecoder::with_max_line_bytes, (limit,), r),
    ensures
        r@.limit == limit,
        r@.buf.len() == 0,
        r@.data.len() == 0,
        !r@.has_data_field,
        r@.error is None,
{
}

/// Once a line has failed, the error comes out for ever.
pub proof fn law_errors_stay(
    decoder: &mut SseDecoder,
    r: Result<Option<SseEvent>, SseError>,
)
    requires
        call_ensures(SseDecoder::next_event, (decoder,), r),
    ensures
        old(decoder)@.error is Some ==> r == Err::<Option<SseEvent>, SseError>(
            old(decoder)@.error->0,
        ) && final(decoder)@ == old(decoder)@,
        old(decoder)@.error is None && r is Err ==> final(decoder)@.error == Some(r->Err_0),
{
    if old(decoder)@.error is None {
        lemma_next_error(old(decoder)@);
    }
}

proof fn lemma_next_error(d: DecoderModel)
    requires
        d.error is None,
    ensures
        next_of(d).1 is Err ==> next_of(d).0.error == Some(next_of(d).1->Err_0),
    decreases d.buf.len(),
{
    if let Step::Quiet(e) = step(d) {
        if e.buf.len() < d.buf.len() {
            lemma_next_error(e);
        }
    }
}

/// A data line with an empty line behind it comes out as the message that it
/// holds, and what follows is left for later.
pub proof fn law_messages_come_out(
    decoder: &mut SseDecoder,
    r: Result<Option<SseEvent>, SseError>,
    value: Seq<u8>,
    rest: Seq<u8>,
)
    requires
        call_ensures(SseDecoder::next_event, (decoder,), r),
        old(decoder)@.error is None,
        old(decoder)@.data.len() == 0,
        valid_utf8(value),
        forall|i: int| 0 <= i < value.len() ==> #[trigger] value[i] != 10 && value[i] != 13,
        6 + value.len() <= old(decoder)@.limit,
        old(decoder)@.buf == (seq![100u8, 97, 116, 97, 58] + seq![32u8] + value) + seq![10u8] + (
        seq![10u8] + rest),
    ensures
        r is Ok,
        r->Ok_0 is Some,
        r->Ok_0->0@ == (EventModel::Message { data: decode_utf8(value) }),
        final(decoder)@.buf == rest,
        !final(decoder)@.has_data_field,
        final(decoder)@.data.len() == 0,
{
    let d = old(decoder)@;
    let line = seq![100u8, 97, 116, 97, 58] + seq![32u8] + value;
    let tail = seq![10u8] + rest;
    assert forall|i: int| 0 <= i < line.len() implies #[trigger] line[i] != 10 && line[i] != 13 by {
        if i >= 6 {
            assert(line[i] == value[i - 6]);
        }
    }
    law_line_ends_are_alike(d, line, tail);
    assert(d == DecoderModel { buf: line + seq![10u8] + tail, ..d });
    law_data_lines_are_put_behind(DecoderModel { buf: tail, ..d }, value);
    let e = DecoderModel {
        buf: tail,
        data: (d.data + decode_utf8(value)).push('\n'),
        has_data_field: true,
        ..d
    };
    assert(step(d) == Step::Quiet(e));
    let none = Seq::<u8>::empty();
    law_line_ends_are_alike(e, none, rest);
    assert(none + seq![10u8] + rest =~= tail);
    assert(e == DecoderModel { buf: none + seq![10u8] + rest, ..e });
    let f = DecoderModel { buf: rest, ..e };
    assert(d.data + decode_utf8(value) =~= decode_utf8(value));
    law_empty_lines_end_events(f, decode_utf8(value));
    assert(step(e) == line_step(f, none));
    assert(next_of(e).1 == Ok::<Option<EventModel>, SseError>(
        Some(EventModel::Message { data: decode_utf8(value) }),
    ));
    assert(next_of(d) == next_of(e));
}

} // verus!
