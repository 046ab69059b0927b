//! Command lines and the events that report them.

use vstd::prelude::*;
use vstd::string::*;
use vstd::utf8::{decode_utf8, valid_utf8};
use crate::clock::{is_clock_text, timestamp_now};
use crate::event::{BackendEvent, EventSource, EventView};
use crate::json::{no_entries, object_new, object_put_text, Entries, Scalar};
use crate::text::{
    chars_of, decode_text, is_trimmed, law_text_without_line_feed, law_trim_keeps_the_core,
    line_ranges, part_of, parts_of, range_starts_with, ranges_within, split_lines, texts_of, trim,
    trim_range,
};

verus! {

/// The marker with which a metadata line begins.
pub open spec fn metadata_marker() -> Seq<char> {
    "METADATA:"@
}

/// Whether a trimmed line is a command: it is not empty and does not begin
/// with the metadata marker.
pub open spec fn is_command(line: Seq<char>) -> bool {
    line.len() > 0 && !metadata_marker().is_prefix_of(line)
}

/// The commands among the given lines, in order: each line is trimmed, and
/// those that are then no command are left out.
pub open spec fn commands_of(lines: Seq<Seq<char>>) -> Seq<Seq<char>> {
    lines.map_values(|line: Seq<char>| trim(line)).filter(|line: Seq<char>| is_command(line))
}

/// The commands that a text holds, in order.
pub open spec fn commands_in(text: Seq<char>) -> Seq<Seq<char>> {
    commands_of(split_lines(text))
}

/// The commands that the bytes of one read hold: those of the text that the
/// bytes encode, and none where they encode no text.
pub open spec fn commands_read(bytes: Seq<u8>) -> Seq<Seq<char>> {
    if valid_utf8(bytes) {
        commands_in(decode_utf8(bytes))
    } else {
        Seq::empty()
    }
}

/// The message of a command's event.
pub open spec fn command_message(command: Seq<char>) -> Seq<char> {
    "Command: "@ + command
}

/// The data of a command's event: the command and the peer that sent it.
pub open spec fn command_entries(command: Seq<char>, sender: Seq<char>) -> Entries {
    no_entries().insert("command"@, Scalar::Text(command)).insert("sender"@, Scalar::Text(sender))
}

/// The event that reports a command of a peer at a given time.
pub open spec fn command_event_view(
    command: Seq<char>,
    sender: Seq<char>,
    timestamp: Seq<char>,
) -> EventView {
    EventView {
        timestamp,
        source: EventSource::Command,
        message: command_message(command),
        data: Some(command_entries(command, sender)),
    }
}

/// Whether the events report the commands, one event for each command and in
/// the same order, each stamped with a time of day.
pub open spec fn events_report(
    events: Seq<BackendEvent>,
    commands: Seq<Seq<char>>,
    sender: Seq<char>,
) -> bool {
    &&& events.len() == commands.len()
    &&& forall|i: int|
        0 <= i < events.len() ==> {
            &&& is_clock_text((#[trigger] events[i]).timestamp@)
            &&& events[i]@ == command_event_view(commands[i], sender, events[i].timestamp@)
        }
}

/// The commands of some lines and one more line are those of the lines,
/// followed by the new line where it is a command.
pub proof fn lemma_commands_of_push(lines: Seq<Seq<char>>, line: Seq<char>)
    ensures
        commands_of(lines.push(line)) == if is_command(trim(line)) {
            commands_of(lines).push(trim(line))
        } else {
            commands_of(lines)
        },
{
    let trimming = |l: Seq<char>| trim(l);
    let keep = |l: Seq<char>| is_command(l);
    let all = lines.push(line).map_values(trimming);
    assert(all.drop_last() =~= lines.map_values(trimming));
    assert(all.last() == trim(line));
    reveal_with_fuel(Seq::filter, 2);
    assert(all.filter(keep) == if keep(all.last()) {
        all.drop_last().filter(keep).push(all.last())
    } else {
        all.drop_last().filter(keep)
    });
}

/// Every command that a text holds is a line of the text, trimmed: it has no
/// white space at either end, is not empty and does not begin with the
/// metadata marker.
pub proof fn law_commands_are_trimmed_lines(text: Seq<char>, i: int) -> (line: int)
    requires
        0 <= i < commands_in(text).len(),
    ensures
        0 <= line < split_lines(text).len(),
        commands_in(text)[i] == trim(split_lines(text)[line]),
        is_trimmed(commands_in(text)[i]),
        is_command(commands_in(text)[i]),
{
    let trimming = |l: Seq<char>| trim(l);
    let keep = |l: Seq<char>| is_command(l);
    let all = split_lines(text).map_values(trimming);
    let command = commands_in(text)[i];
    all.lemma_filter_pred(keep, i);
    assert(all.filter(keep).contains(command));
    all.lemma_filter_contains_rev(keep, command);
    let line = choose|line: int| 0 <= line < all.len() && all[line] == command;
    law_trim_keeps_the_core(split_lines(text)[line]);
    line
}

/// A text without a line feed holds one command, the text trimmed, where that
/// is a command, and none where it is not: a line that begins with the
/// metadata marker, with white space before it or not, gives nothing.
pub proof fn law_single_line(text: Seq<char>)
    requires
        forall|i: int| 0 <= i < text.len() ==> text[i] != '\n',
    ensures
        commands_in(text) == if is_command(trim(text)) {
            seq![trim(text)]
        } else {
            Seq::<Seq<char>>::empty()
        },
{
    law_text_without_line_feed(text);
    let none = Seq::<Seq<char>>::empty();
    assert(commands_of(none) =~= none) by {
        reveal_with_fuel(Seq::filter, 1);
    }
    if text.len() > 0 {
        assert(seq![text] =~= none.push(text));
        lemma_commands_of_push(none, text);
        assert(none.push(trim(text)) =~= seq![trim(text)]);
    }
}

/// The commands that a text holds, in order.
pub fn command_lines(text: &str) -> (commands: Vec<String>)
    ensures
        texts_of(commands@) == commands_in(text@),
{
    let chars = chars_of(text);
    let marker = chars_of("METADATA:");
    let ranges = line_ranges(&chars);
    let ghost lines = split_lines(chars@);
    let mut commands: Vec<String> = Vec::new();
    let mut i: usize = 0;
    assert(lines.take(0) =~= Seq::empty());
    assert(commands_of(Seq::empty()) =~= Seq::empty()) by {
        reveal_with_fuel(Seq::filter, 1);
    }
    assert(texts_of(commands@) =~= Seq::empty());
    while i < ranges.len()
        invariant
            i <= ranges.len(),
            chars@ == text@,
            marker@ == metadata_marker(),
            ranges_within(ranges@, chars@.len()),
            parts_of(chars@, ranges@) == lines,
            lines == split_lines(chars@),
            texts_of(commands@) == commands_of(lines.take(i as int)),
        decreases ranges.len() - i,
    {
        let range = ranges[i];
        let ghost before = texts_of(commands@);
        let ghost line = lines[i as int];
        assert(line == chars@.subrange(range.0 as int, range.1 as int));
        let kept = trim_range(&chars, range.0, range.1);
        proof {
            assert(lines.take(i + 1) =~= lines.take(i as int).push(line));
            lemma_commands_of_push(lines.take(i as int), line);
        }
        if kept.1 > kept.0 && !range_starts_with(&chars, kept.0, kept.1, &marker) {
            commands.push(part_of(text, kept.0, kept.1));
            assert(texts_of(commands@) =~= before.push(trim(line)));
        }
        i += 1;
    }
    assert(lines.take(ranges.len() as int) =~= lines);
    commands
}

/// The event that reports a command of a peer at a given time.
pub fn command_event(command: &str, sender: &str, timestamp: String) -> (event: BackendEvent)
    ensures
        event@ == command_event_view(command@, sender@, timestamp@),
{
    let mut message = String::from_str("Command: ");
    message.append(command);
    let mut data = object_new();
    object_put_text(&mut data, "command", String::from_str(command));
    object_put_text(&mut data, "sender", String::from_str(sender));
    BackendEvent { timestamp, source: EventSource::Command, message, data: Some(data) }
}

/// The events for the bytes of one read from a peer: one for each command
/// that the bytes hold, in order, each stamped with the time of day at which
/// it was made. Bytes that encode no text give no event.
pub fn command_events(bytes: &[u8], sender: &str) -> (events: Vec<BackendEvent>)
    ensures
        events_report(events@, commands_read(bytes@), sender@),
{
    let mut events: Vec<BackendEvent> = Vec::new();
    match decode_text(bytes) {
        Some(text) => {
            let commands = command_lines(text.as_str());
            let mut i: usize = 0;
            while i < commands.len()
                invariant
                    i <= commands.len(),
                    texts_of(commands@) == commands_read(bytes@),
                    events_report(events@, commands_read(bytes@).take(i as int), sender@),
                decreases commands.len() - i,
            {
                assert(texts_of(commands@)[i as int] == commands@[i as int]@);
                let event = command_event(commands[i].as_str(), sender, timestamp_now());
                events.push(event);
                i += 1;
            }
            assert(commands_read(bytes@).take(commands.len() as int) =~= commands_read(bytes@));
        },
        None => {},
    }
    events
}

} // verus!
