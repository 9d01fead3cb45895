//! What holds of CSV lines, rows and playlist names.

use crate::csv::{
    csv_fields, entry_of, lemma_row_entries_len, line_fields, names_columns, parsed, parsed_text,
    playlist_names, row_entries, track_texts, CsvParseResult, CsvTrackEntry, ParsedCsv, TrackText,
};
use crate::text::{has_part, is_white_space, lowercase_of, text_lines, trimmed};
use crate::text_laws::{
    has_clean_ends, is_around, is_one_line, law_blank_texts_are_trimmed_away, law_part_has_a_before_and_an_after,
    law_trimmed, law_written_lines_are_read, written_lines,
};
use vstd::prelude::*;

verus! {

/// Fields with commas between them.
pub open spec fn joined(fields: Seq<Seq<char>>) -> Seq<char>
    decreases fields.len(),
{
    if fields.len() == 0 {
        seq![]
    } else if fields.len() == 1 {
        fields[0]
    } else {
        fields[0] + seq![','] + joined(fields.drop_first())
    }
}

/// A text with each quote doubled.
pub open spec fn doubled(text: Seq<char>) -> Seq<char>
    decreases text.len(),
{
    if text.len() == 0 {
        seq![]
    } else if text.first() == '"' {
        seq!['"', '"'] + doubled(text.drop_first())
    } else {
        seq![text.first()] + doubled(text.drop_first())
    }
}

/// A field as it is written in a line, in quotes or bare.
pub open spec fn written_field(field: Seq<char>, quoted: bool) -> Seq<char> {
    if quoted {
        seq!['"'] + doubled(field) + seq!['"']
    } else {
        field
    }
}

/// Whether a field can be written without quotes.
pub open spec fn can_be_bare(field: Seq<char>) -> bool {
    &&& !field.contains(',')
    &&& field.len() > 0 ==> field.first() != '"'
}

/// A line with the given fields, each in quotes or bare.
pub open spec fn written_line(fields: Seq<Seq<char>>, quoted: Seq<bool>) -> Seq<char> {
    joined(Seq::new(fields.len(), |i: int| written_field(fields[i], quoted[i])))
}

/// Reading the inside of quotes up to the closing one.
proof fn lemma_quoted(field: Seq<char>, tail: Seq<char>, current: Seq<char>)
    requires
        tail.len() > 0 ==> tail.first() != '"',
    ensures
        csv_fields(doubled(field) + seq!['"'] + tail, current, true) == csv_fields(
            tail,
            current + field,
            false,
        ),
    decreases field.len(),
{
    let rest = doubled(field) + seq!['"'] + tail;
    if field.len() == 0 {
        assert(rest.drop_first() =~= tail);
        assert(current + field =~= current);
    } else {
        let c = field.first();
        let more = field.drop_first();
        let inner = doubled(more) + seq!['"'] + tail;
        lemma_quoted(more, tail, current.push(c));
        assert(current.push(c) + more =~= current + field);
        if c == '"' {
            assert(rest =~= seq!['"', '"'] + inner);
            assert(rest.drop_first().first() == '"');
            assert(rest.drop_first().drop_first() =~= inner);
        } else {
            assert(rest =~= seq![c] + inner);
            assert(rest.drop_first() =~= inner);
        }
    }
}

/// Reading a bare field.
proof fn lemma_bare(field: Seq<char>, tail: Seq<char>, current: Seq<char>)
    requires
        !field.contains(','),
        current.len() == 0 && field.len() > 0 ==> field.first() != '"',
    ensures
        csv_fields(field + tail, current, false) == csv_fields(tail, current + field, false),
    decreases field.len(),
{
    if field.len() == 0 {
        assert(field + tail =~= tail);
        assert(current + field =~= current);
    } else {
        let c = field.first();
        let more = field.drop_first();
        assert(c != ',') by {
            assert(field[0] == c);
        }
        assert(!more.contains(',')) by {
            if more.contains(',') {
                let i = choose|i: int| 0 <= i < more.len() && more[i] == ',';
                assert(field[i + 1] == ',');
            }
        }
        lemma_bare(more, tail, current.push(c));
        assert((field + tail).drop_first() =~= more + tail);
        assert(current.push(c) + more =~= current + field);
    }
}

/// Reading a field, written in quotes or bare.
proof fn lemma_written_field(field: Seq<char>, quoted: bool, tail: Seq<char>)
    requires
        tail.len() > 0 ==> tail.first() == ',',
        quoted || can_be_bare(field),
    ensures
        csv_fields(written_field(field, quoted) + tail, seq![], false) == csv_fields(
            tail,
            field,
            false,
        ),
{
    let none: Seq<char> = seq![];
    assert(none + field =~= field);
    if quoted {
        let rest = written_field(field, quoted) + tail;
        assert(rest.first() == '"');
        assert(rest.drop_first() =~= doubled(field) + seq!['"'] + tail);
        lemma_quoted(field, tail, none);
    } else {
        lemma_bare(field, tail, none);
    }
}

/// A line of fields is read back, commas and quotes in the fields included: every field may be
/// written in quotes, with its quotes doubled, and one without commas that does not begin with a
/// quote also bare.
pub proof fn law_written_line_is_read(fields: Seq<Seq<char>>, quoted: Seq<bool>)
    requires
        fields.len() > 0,
        quoted.len() == fields.len(),
        forall|i: int| 0 <= i < fields.len() ==> quoted[i] || can_be_bare(#[trigger] fields[i]),
    ensures
        line_fields(written_line(fields, quoted)) == fields,
    decreases fields.len(),
{
    let written = Seq::new(fields.len(), |i: int| written_field(fields[i], quoted[i]));
    let first = fields[0];
    if fields.len() == 1 {
        let none: Seq<char> = seq![];
        assert(written[0] + none =~= written[0]);
        lemma_written_field(first, quoted[0], none);
        assert(seq![first] =~= fields);
    } else {
        let more = fields.drop_first();
        let more_quoted = quoted.drop_first();
        let more_written = Seq::new(more.len(), |i: int| written_field(more[i], more_quoted[i]));
        assert(written.drop_first() =~= more_written);
        assert forall|i: int| 0 <= i < more.len() implies more_quoted[i] || can_be_bare(
            #[trigger] more[i],
        ) by {
            assert(more[i] == fields[i + 1]);
        }
        law_written_line_is_read(more, more_quoted);
        let tail = seq![','] + joined(more_written);
        assert(written[0] + seq![','] + joined(more_written) =~= written[0] + tail);
        lemma_written_field(first, quoted[0], tail);
        assert(tail.drop_first() =~= joined(more_written));
        assert(seq![first] + more =~= fields);
    }
}

/// How a field stands in a line: bare, or with a quoted beginning and more text after it.
pub enum FieldForm {
    Bare(Seq<char>),
    Quoted { inside: Seq<char>, more: Seq<char> },
}

/// What a field holds.
pub open spec fn form_value(form: FieldForm) -> Seq<char> {
    match form {
        FieldForm::Bare(text) => text,
        FieldForm::Quoted { inside, more } => inside + more,
    }
}

/// How a field is written.
pub open spec fn form_text(form: FieldForm) -> Seq<char> {
    match form {
        FieldForm::Bare(text) => text,
        FieldForm::Quoted { inside, more } => seq!['"'] + doubled(inside) + seq!['"'] + more,
    }
}

/// Whether a field can be written in a form: what stands outside quotes holds no comma and does not
/// begin with a quote.
pub open spec fn form_fits(form: FieldForm) -> bool {
    match form {
        FieldForm::Bare(text) => can_be_bare(text),
        FieldForm::Quoted { inside, more } => can_be_bare(more),
    }
}

proof fn lemma_form(form: FieldForm, tail: Seq<char>)
    requires
        tail.len() > 0 ==> tail.first() == ',',
        form_fits(form),
    ensures
        csv_fields(form_text(form) + tail, seq![], false) == csv_fields(
            tail,
            form_value(form),
            false,
        ),
{
    match form {
        FieldForm::Bare(text) => {
            lemma_written_field(text, false, tail);
        },
        FieldForm::Quoted { inside, more } => {
            let none: Seq<char> = seq![];
            let rest = form_text(form) + tail;
            assert(rest.first() == '"');
            assert(rest.drop_first() =~= doubled(inside) + seq!['"'] + (more + tail));
            lemma_quoted(inside, more + tail, none);
            assert(none + inside =~= inside);
            lemma_bare(more, tail, inside);
        },
    }
}

proof fn lemma_unclosed(text: Seq<char>, current: Seq<char>)
    ensures
        csv_fields(doubled(text), current, true) == seq![current + text],
    decreases text.len(),
{
    if text.len() == 0 {
        assert(current + text =~= current);
    } else {
        let c = text.first();
        let more = text.drop_first();
        let rest = doubled(text);
        lemma_unclosed(more, current.push(c));
        assert(current.push(c) + more =~= current + text);
        if c == '"' {
            assert(rest =~= seq!['"', '"'] + doubled(more));
            assert(rest.drop_first().first() == '"');
            assert(rest.drop_first().drop_first() =~= doubled(more));
        } else {
            assert(rest =~= seq![c] + doubled(more));
            assert(rest.drop_first() =~= doubled(more));
        }
    }
}

/// Any line, also one that is not written with care, is split into what its fields hold: text after
/// a closing quote belongs to the field, quotes inside a bare text are kept, and a quote that is
/// never closed takes in the rest of the line, commas included.
pub proof fn law_any_line_is_read(forms: Seq<FieldForm>, unclosed: Option<Seq<char>>)
    requires
        forms.len() > 0 || unclosed is Some,
        forall|i: int| 0 <= i < forms.len() ==> form_fits(#[trigger] forms[i]),
    ensures
        ({
            let texts = Seq::new(forms.len(), |i: int| form_text(forms[i]));
            let values = Seq::new(forms.len(), |i: int| form_value(forms[i]));
            match unclosed {
                Some(rest) => line_fields(joined(texts.push(seq!['"'] + doubled(rest))))
                    == values.push(rest),
                None => line_fields(joined(texts)) == values,
            }
        }),
    decreases forms.len(),
{
    let none: Seq<char> = seq![];
    let texts = Seq::new(forms.len(), |i: int| form_text(forms[i]));
    let values = Seq::new(forms.len(), |i: int| form_value(forms[i]));
    let all_texts = match unclosed {
        Some(rest) => texts.push(seq!['"'] + doubled(rest)),
        None => texts,
    };
    let all_values = match unclosed {
        Some(rest) => values.push(rest),
        None => values,
    };
    if forms.len() == 0 {
        let rest = unclosed->0;
        let line = seq!['"'] + doubled(rest);
        assert(all_texts[0] == line);
        assert(joined(all_texts) == line);
        assert(line.first() == '"');
        assert(line.drop_first() =~= doubled(rest));
        lemma_unclosed(rest, none);
        assert(none + rest =~= rest);
        assert(all_values =~= seq![rest]);
    } else if all_texts.len() == 1 {
        assert(all_texts[0] + none =~= all_texts[0]);
        lemma_form(forms[0], none);
        assert(all_values =~= seq![form_value(forms[0])]);
    } else {
        let more = forms.drop_first();
        assert forall|i: int| 0 <= i < more.len() implies form_fits(#[trigger] more[i]) by {
            assert(more[i] == forms[i + 1]);
        }
        law_any_line_is_read(more, unclosed);
        let more_texts = Seq::new(more.len(), |i: int| form_text(more[i]));
        let more_values = Seq::new(more.len(), |i: int| form_value(more[i]));
        let rest_texts = match unclosed {
            Some(rest) => more_texts.push(seq!['"'] + doubled(rest)),
            None => more_texts,
        };
        let rest_values = match unclosed {
            Some(rest) => more_values.push(rest),
            None => more_values,
        };
        assert(all_texts.drop_first() =~= rest_texts);
        let tail = seq![','] + joined(rest_texts);
        assert(all_texts[0] + seq![','] + joined(rest_texts) =~= all_texts[0] + tail);
        lemma_form(forms[0], tail);
        assert(tail.drop_first() =~= joined(rest_texts));
        assert(seq![form_value(forms[0])] + rest_values =~= all_values);
    }
}

/// Reading a line without quotes.
proof fn lemma_no_quotes(rest: Seq<char>, current: Seq<char>)
    requires
        !rest.contains('"'),
        !current.contains(','),
    ensures
        csv_fields(rest, current, false).len() > 0,
        joined(csv_fields(rest, current, false)) == current + rest,
        forall|i: int|
            0 <= i < csv_fields(rest, current, false).len() ==> !(#[trigger] csv_fields(
                rest,
                current,
                false,
            )[i]).contains(','),
    decreases rest.len(),
{
    if rest.len() == 0 {
        assert(current + rest =~= current);
    } else {
        let c = rest.first();
        let tail = rest.drop_first();
        assert(rest[0] == c);
        assert(!tail.contains('"')) by {
            if tail.contains('"') {
                let i = choose|i: int| 0 <= i < tail.len() && tail[i] == '"';
                assert(rest[i + 1] == '"');
            }
        }
        if c == ',' {
            let none: Seq<char> = seq![];
            lemma_no_quotes(tail, none);
            let more = csv_fields(tail, none, false);
            let all = csv_fields(rest, current, false);
            assert(all =~= seq![current] + more);
            assert(all.drop_first() =~= more);
            assert(none + tail =~= tail);
            assert(current + seq![','] + tail =~= current + rest);
            assert forall|i: int| 0 <= i < all.len() implies !(#[trigger] all[i]).contains(',') by {
                if i > 0 {
                    assert(all[i] == more[i - 1]);
                }
            }
        } else {
            assert(!current.push(c).contains(',')) by {
                if current.push(c).contains(',') {
                    let i = choose|i: int|
                        0 <= i < current.push(c).len() && current.push(c)[i] == ',';
                    if i < current.len() {
                        assert(current[i] == ',');
                    }
                }
            }
            lemma_no_quotes(tail, current.push(c));
            assert(current.push(c) + tail =~= current + rest);
        }
    }
}

/// A line without quotes is split at its commas: its fields hold none, and with commas between them
/// they are the line.
pub proof fn law_line_without_quotes_is_split(line: Seq<char>)
    requires
        !line.contains('"'),
    ensures
        joined(line_fields(line)) == line,
        forall|i: int|
            0 <= i < line_fields(line).len() ==> !(#[trigger] line_fields(line)[i]).contains(','),
{
    let none: Seq<char> = seq![];
    lemma_no_quotes(line, none);
    assert(none + line =~= line);
}

/// A line is taken for a header wherever it names a column, whatever stands around the name.
pub proof fn law_column_name_makes_a_header(before: Seq<char>, after: Seq<char>)
    ensures
        names_columns(before + "track name"@ + after),
        names_columns(before + "artist name"@ + after),
        names_columns(before + "album name"@ + after),
        names_columns(before + "playlist"@ + after),
{
    law_part_has_a_before_and_an_after(before + "track name"@ + after, "track name"@);
    law_part_has_a_before_and_an_after(before + "artist name"@ + after, "artist name"@);
    law_part_has_a_before_and_an_after(before + "album name"@ + after, "album name"@);
    law_part_has_a_before_and_an_after(before + "playlist"@ + after, "playlist"@);
}

/// A line is also taken for a header if it speaks of an artist and of a track, a song or a title, in
/// either order and with anything around them.
pub proof fn law_artist_and_title_make_a_header(
    before: Seq<char>,
    between: Seq<char>,
    after: Seq<char>,
)
    ensures
        names_columns(before + "artist"@ + between + "track"@ + after),
        names_columns(before + "artist"@ + between + "song"@ + after),
        names_columns(before + "artist"@ + between + "title"@ + after),
        names_columns(before + "track"@ + between + "artist"@ + after),
        names_columns(before + "song"@ + between + "artist"@ + after),
        names_columns(before + "title"@ + between + "artist"@ + after),
{
    lemma_both_parts(before, "artist"@, between, "track"@, after);
    lemma_both_parts(before, "artist"@, between, "song"@, after);
    lemma_both_parts(before, "artist"@, between, "title"@, after);
    lemma_both_parts(before, "track"@, between, "artist"@, after);
    lemma_both_parts(before, "song"@, between, "artist"@, after);
    lemma_both_parts(before, "title"@, between, "artist"@, after);
}

proof fn lemma_both_parts(
    before: Seq<char>,
    a: Seq<char>,
    between: Seq<char>,
    b: Seq<char>,
    after: Seq<char>,
)
    ensures
        has_part(before + a + between + b + after, a),
        has_part(before + a + between + b + after, b),
{
    let whole = before + a + between + b + after;
    assert(whole =~= before + a + (between + b + after));
    law_part_has_a_before_and_an_after(whole, a);
    assert(whole =~= (before + a + between) + b + after);
    law_part_has_a_before_and_an_after(whole, b);
}

/// No other line is taken for a header: one without a playlist, an album name or a track name in it
/// is none if it speaks of no artist, and if it speaks of one, but not by the name of a column, it is
/// none either without a track, a song or a title.
pub proof fn law_data_is_no_header(lower: Seq<char>)
    requires
        !is_around(lower, "playlist"@),
        !is_around(lower, "album name"@),
        !is_around(lower, "track name"@),
        !is_around(lower, "artist name"@),
        !is_around(lower, "artist"@) || (!is_around(lower, "track"@) && !is_around(lower, "song"@)
            && !is_around(lower, "title"@)),
    ensures
        !names_columns(lower),
{
    law_part_has_a_before_and_an_after(lower, "playlist"@);
    law_part_has_a_before_and_an_after(lower, "album name"@);
    law_part_has_a_before_and_an_after(lower, "track name"@);
    law_part_has_a_before_and_an_after(lower, "artist name"@);
    law_part_has_a_before_and_an_after(lower, "artist"@);
    law_part_has_a_before_and_an_after(lower, "track"@);
    law_part_has_a_before_and_an_after(lower, "song"@);
    law_part_has_a_before_and_an_after(lower, "title"@);
}

/// Whether a text holds something other than white space.
pub open spec fn holds_text(text: Seq<char>) -> bool {
    exists|i: int| 0 <= i < text.len() && !is_white_space(#[trigger] text[i])
}

/// A row is read as a track exactly if it has at least three fields and something other than white
/// space in the first two, whatever the other fields hold. The track has the first four fields, less
/// the white space around them, as name, artist, album and playlist, and an empty playlist where
/// there are only three fields.
pub proof fn law_row_is_a_track(fields: Seq<Seq<char>>, row: nat)
    ensures
        entry_of(fields, row) is Some <==> fields.len() >= 3 && holds_text(fields[0])
            && holds_text(fields[1]),
        entry_of(fields, row) matches Some(track) ==> {
            &&& track.track_name == trimmed(fields[0])
            &&& track.artist == trimmed(fields[1])
            &&& track.album == trimmed(fields[2])
            &&& fields.len() == 3 ==> track.playlist_name.len() == 0
            &&& fields.len() > 3 ==> track.playlist_name == trimmed(fields[3])
            &&& track.row_index == row
        },
{
    if fields.len() >= 3 {
        law_blank_texts_are_trimmed_away(fields[0]);
        law_blank_texts_are_trimmed_away(fields[1]);
    }
}

/// Every row is either a track or counted as skipped.
pub proof fn law_rows_are_counted(lines: Seq<Seq<char>>, start: int)
    requires
        0 <= start <= lines.len(),
    ensures
        parsed(lines, start).tracks.len() + parsed(lines, start).skipped_rows == parsed(
            lines,
            start,
        ).total_rows,
        parsed(lines, start).total_rows == lines.len() - start,
        parsed(lines, start).playlists == playlist_names(parsed(lines, start).tracks),
{
    lemma_row_entries_len(lines, start, lines.len() as int);
}

/// Whether an entry is as one read from a CSV is: its texts have no white space at either end, and
/// it has a track name and an artist.
pub open spec fn is_tidy(track: TrackText) -> bool {
    &&& track.track_name.len() > 0
    &&& track.artist.len() > 0
    &&& has_clean_ends(track.track_name)
    &&& has_clean_ends(track.artist)
    &&& has_clean_ends(track.album)
    &&& has_clean_ends(track.playlist_name)
}

/// Every track that is read has a track name and an artist, no text of it begins or ends with white
/// space, and its row index is that of the line that describes it; the tracks are in the order of
/// their rows.
pub proof fn law_tracks_are_tidy(lines: Seq<Seq<char>>, from: int, to: int)
    requires
        0 <= from <= to <= lines.len(),
    ensures
        forall|i: int|
            0 <= i < row_entries(lines, from, to).len() ==> {
                let t = #[trigger] row_entries(lines, from, to)[i];
                &&& is_tidy(t)
                &&& from <= t.row_index < to
                &&& entry_of(line_fields(lines[t.row_index as int]), t.row_index) == Some(t)
            },
        forall|i: int, j: int|
            0 <= i < j < row_entries(lines, from, to).len() ==> (#[trigger] row_entries(
                lines,
                from,
                to,
            )[i]).row_index < (#[trigger] row_entries(lines, from, to)[j]).row_index,
    decreases to - from,
{
    if from < to {
        law_tracks_are_tidy(lines, from, to - 1);
        let fields = line_fields(lines[to - 1]);
        match entry_of(fields, (to - 1) as nat) {
            Some(t) => {
                law_trimmed(fields[0]);
                law_trimmed(fields[1]);
                law_trimmed(fields[2]);
                if fields.len() > 3 {
                    law_trimmed(fields[3]);
                }
                assert(is_tidy(t));
            },
            None => {},
        }
    }
}

/// No track is lost: every row that describes a track is among the tracks that are read.
pub proof fn law_described_tracks_are_kept(lines: Seq<Seq<char>>, from: int, to: int, row: int)
    requires
        0 <= from <= row < to <= lines.len(),
        entry_of(line_fields(lines[row]), row as nat) is Some,
    ensures
        row_entries(lines, from, to).contains(entry_of(line_fields(lines[row]), row as nat)->0),
    decreases to - from,
{
    let track = entry_of(line_fields(lines[row]), row as nat)->0;
    let all = row_entries(lines, from, to);
    if row == to - 1 {
        assert(all[all.len() - 1] == track);
    } else {
        law_described_tracks_are_kept(lines, from, to - 1, row);
        let before = row_entries(lines, from, to - 1);
        let k = choose|k: int| 0 <= k < before.len() && before[k] == track;
        assert(all[k] == track);
    }
}

/// The playlist names of tracks are the non-empty ones among theirs, each once.
pub proof fn law_playlist_names_are_unique(tracks: Seq<TrackText>)
    ensures
        playlist_names(tracks).no_duplicates(),
        forall|name: Seq<char>| #[trigger]
            playlist_names(tracks).contains(name) <==> name.len() > 0 && exists|i: int|
                0 <= i < tracks.len() && (#[trigger] tracks[i]).playlist_name == name,
    decreases tracks.len(),
{
    if tracks.len() > 0 {
        let front = tracks.drop_last();
        let last = tracks.last().playlist_name;
        law_playlist_names_are_unique(front);
        let before = playlist_names(front);
        let all = playlist_names(tracks);
        assert forall|name: Seq<char>| #[trigger] all.contains(name) <==> name.len() > 0
            && exists|i: int|
            0 <= i < tracks.len() && (#[trigger] tracks[i]).playlist_name == name by {
            if all.contains(name) {
                let k = choose|k: int| 0 <= k < all.len() && all[k] == name;
                if k < before.len() {
                    assert(before[k] == name);
                    assert(before.contains(name));
                    let i = choose|i: int|
                        0 <= i < front.len() && (#[trigger] front[i]).playlist_name == name;
                    assert(tracks[i].playlist_name == name);
                } else {
                    assert(tracks[tracks.len() - 1].playlist_name == name);
                }
            }
            if name.len() > 0 && exists|i: int|
                0 <= i < tracks.len() && (#[trigger] tracks[i]).playlist_name == name {
                let i = choose|i: int|
                    0 <= i < tracks.len() && (#[trigger] tracks[i]).playlist_name == name;
                if i < front.len() {
                    assert(front[i].playlist_name == name);
                    assert(before.contains(name));
                    let k = choose|k: int| 0 <= k < before.len() && before[k] == name;
                    assert(all[k] == name);
                } else if before.contains(name) {
                    let k = choose|k: int| 0 <= k < before.len() && before[k] == name;
                    assert(all[k] == name);
                } else {
                    assert(all[all.len() - 1] == name);
                }
            }
        }
        if last.len() > 0 && !before.contains(last) {
            assert forall|i: int, j: int|
                0 <= i < all.len() && 0 <= j < all.len() && i != j implies all[i] != all[j] by {
                if i < before.len() && j < before.len() {
                    assert(before[i] != before[j]);
                } else if i < before.len() {
                    assert(before.contains(before[i]));
                } else {
                    assert(before.contains(before[j]));
                }
            }
        }
    }
}

/// The playlist names are in order of first appearance: those of the first tracks come first, and
/// further tracks only add to them.
pub proof fn law_playlist_names_keep_order(tracks: Seq<TrackText>, n: int)
    requires
        0 <= n <= tracks.len(),
    ensures
        playlist_names(tracks.take(n)).len() <= playlist_names(tracks).len(),
        playlist_names(tracks).take(playlist_names(tracks.take(n)).len() as int) == playlist_names(
            tracks.take(n),
        ),
    decreases tracks.len() - n,
{
    if n == tracks.len() {
        assert(tracks.take(n) =~= tracks);
        assert(playlist_names(tracks).take(playlist_names(tracks).len() as int)
            =~= playlist_names(tracks));
    } else {
        law_playlist_names_keep_order(tracks, n + 1);
        assert(tracks.take(n + 1).drop_last() =~= tracks.take(n));
        let shorter = playlist_names(tracks.take(n));
        let longer = playlist_names(tracks.take(n + 1));
        let all = playlist_names(tracks);
        assert(longer.take(shorter.len() as int) =~= shorter);
        assert(all.take(shorter.len() as int) =~= longer.take(shorter.len() as int)) by {
            assert(all.take(longer.len() as int) == longer);
            assert forall|i: int| 0 <= i < shorter.len() implies all[i] == longer[i] by {
                assert(all.take(longer.len() as int)[i] == all[i]);
            }
        }
    }
}

/// The playlist names stand in the order in which they appear first: of two of them, the first one
/// is named by a track before any track names the second.
pub proof fn law_playlist_names_in_order_of_appearance(tracks: Seq<TrackText>, i: int, j: int)
    requires
        0 <= i < j < playlist_names(tracks).len(),
    ensures
        exists|a: int|
            0 <= a < tracks.len() && (#[trigger] tracks[a]).playlist_name == playlist_names(tracks)[i]
                && forall|b: int|
                0 <= b <= a ==> (#[trigger] tracks[b]).playlist_name != playlist_names(tracks)[j],
    decreases tracks.len(),
{
    let front = tracks.drop_last();
    let before = playlist_names(front);
    let all = playlist_names(tracks);
    if j < before.len() {
        law_playlist_names_in_order_of_appearance(front, i, j);
        let a = choose|a: int|
            0 <= a < front.len() && (#[trigger] front[a]).playlist_name == before[i] && forall|b: int|
                0 <= b <= a ==> (#[trigger] front[b]).playlist_name != before[j];
        assert(tracks[a].playlist_name == all[i]);
        assert forall|b: int| 0 <= b <= a implies (#[trigger] tracks[b]).playlist_name != all[j] by {
            assert(front[b] == tracks[b]);
        }
    } else {
        law_playlist_names_are_unique(front);
        assert(before.contains(before[i]));
        let a = choose|a: int| 0 <= a < front.len() && (#[trigger] front[a]).playlist_name == before[i];
        assert(tracks[a].playlist_name == all[i]);
        assert forall|b: int| 0 <= b <= a implies (#[trigger] tracks[b]).playlist_name != all[j] by {
            assert(front[b] == tracks[b]);
            assert(front[b].playlist_name.len() > 0 ==> before.contains(front[b].playlist_name));
        }
    }
}

/// What a text says is what its rows say: the rows are its lines, less the first if that names
/// columns. Every row with three fields, a name and an artist is a track, no other is, the tracks
/// stand in the order of their rows, and every other row is counted as skipped.
pub proof fn law_text_says_what_its_rows_say(text: Seq<char>)
    requires
        text.len() > 0,
    ensures
        ({
            let lines = text_lines(text);
            let start = if names_columns(lowercase_of(lines[0])) {
                1int
            } else {
                0
            };
            let result = parsed_text(text);
            &&& lines.len() > 0
            &&& result.total_rows == lines.len() - start
            &&& result.tracks.len() + result.skipped_rows == result.total_rows
            &&& result.playlists == playlist_names(result.tracks)
            &&& forall|i: int|
                0 <= i < result.tracks.len() ==> {
                    let t = #[trigger] result.tracks[i];
                    &&& start <= t.row_index < lines.len()
                    &&& entry_of(line_fields(lines[t.row_index as int]), t.row_index) == Some(t)
                }
            &&& forall|i: int, j: int|
                0 <= i < j < result.tracks.len() ==> (#[trigger] result.tracks[i]).row_index < (
                #[trigger] result.tracks[j]).row_index
            &&& forall|row: int|
                start <= row < lines.len() && entry_of(
                    line_fields(#[trigger] lines[row]),
                    row as nat,
                ) is Some ==> result.tracks.contains(
                    entry_of(line_fields(lines[row]), row as nat)->0,
                )
        }),
{
    let lines = text_lines(text);
    crate::text::lemma_line_end(text, 0);
    assert(lines.len() > 0);
    let start = if names_columns(lowercase_of(lines[0])) {
        1int
    } else {
        0
    };
    let n = lines.len() as int;
    law_rows_are_counted(lines, start);
    law_tracks_are_tidy(lines, start, n);
    assert forall|row: int|
        start <= row < n && entry_of(
            line_fields(#[trigger] lines[row]),
            row as nat,
        ) is Some implies parsed_text(text).tracks.contains(
        entry_of(line_fields(lines[row]), row as nat)->0,
    ) by {
        law_described_tracks_are_kept(lines, start, n, row);
    }
}

/// A row of cells as it is written: each cell in quotes or bare.
pub struct WrittenRow {
    pub cells: Seq<Seq<char>>,
    pub quoted: Seq<bool>,
}

/// The line of a written row.
pub open spec fn row_line(row: WrittenRow) -> Seq<char> {
    written_line(row.cells, row.quoted)
}

/// Whether a written row is one line of at least three cells with a name and an artist.
pub open spec fn is_track_row(row: WrittenRow) -> bool {
    &&& row.cells.len() >= 3
    &&& row.quoted.len() == row.cells.len()
    &&& forall|i: int|
        0 <= i < row.cells.len() ==> row.quoted[i] || can_be_bare(#[trigger] row.cells[i])
    &&& holds_text(row.cells[0])
    &&& holds_text(row.cells[1])
    &&& is_one_line(row_line(row))
    &&& row_line(row).len() > 0 ==> row_line(row).last() != '\r'
}

proof fn lemma_written_rows(
    lines: Seq<Seq<char>>,
    rows: Seq<WrittenRow>,
    start: int,
    n: int,
)
    requires
        0 <= start,
        0 <= n <= rows.len(),
        lines.len() == start + rows.len(),
        forall|i: int| 0 <= i < rows.len() ==> is_track_row(#[trigger] rows[i]),
        forall|i: int| 0 <= i < rows.len() ==> lines[start + i] == row_line(#[trigger] rows[i]),
    ensures
        row_entries(lines, start, start + n).len() == n,
        forall|i: int|
            0 <= i < n ==> entry_of(rows[i].cells, (start + i) as nat) == Some(
                #[trigger] row_entries(lines, start, start + n)[i],
            ),
    decreases n,
{
    if n > 0 {
        lemma_written_rows(lines, rows, start, n - 1);
        let row = rows[n - 1];
        assert(lines[start + (n - 1)] == row_line(row));
        law_written_line_is_read(row.cells, row.quoted);
        law_row_is_a_track(row.cells, (start + n - 1) as nat);
    }
}

/// Tracks that are written as lines are imported: in three columns, in four or in more, each cell in
/// quotes or bare and with white space around it or not, below a header or without one, and whatever
/// the cells hold. None is skipped, and each has its cells, less the white space around them, and
/// the number of its row.
pub proof fn law_written_rows_are_imported(header: Option<Seq<char>>, rows: Seq<WrittenRow>)
    requires
        header is Some || rows.len() > 0,
        forall|i: int| 0 <= i < rows.len() ==> is_track_row(#[trigger] rows[i]),
        match header {
            Some(line) => names_columns(lowercase_of(line)) && is_one_line(line) && (line.len() > 0
                ==> line.last() != '\r'),
            None => !names_columns(lowercase_of(row_line(rows[0]))),
        },
    ensures
        ({
            let written = rows.map_values(|r: WrittenRow| row_line(r));
            let lines = match header {
                Some(line) => seq![line] + written,
                None => written,
            };
            let start = if header is Some {
                1int
            } else {
                0
            };
            let result = parsed_text(written_lines(lines));
            &&& result.total_rows == rows.len()
            &&& result.skipped_rows == 0
            &&& result.tracks.len() == rows.len()
            &&& forall|i: int|
                0 <= i < rows.len() ==> {
                    let t = #[trigger] result.tracks[i];
                    let cells = rows[i].cells;
                    &&& t.track_name == trimmed(cells[0])
                    &&& t.artist == trimmed(cells[1])
                    &&& t.album == trimmed(cells[2])
                    &&& cells.len() == 3 ==> t.playlist_name.len() == 0
                    &&& cells.len() > 3 ==> t.playlist_name == trimmed(cells[3])
                    &&& t.row_index == start + i
                }
        }),
{
    let written = rows.map_values(|r: WrittenRow| row_line(r));
    let lines = match header {
        Some(line) => seq![line] + written,
        None => written,
    };
    let start = if header is Some {
        1int
    } else {
        0
    };
    assert forall|i: int| 0 <= i < lines.len() implies is_one_line(#[trigger] lines[i]) && (
    lines[i].len() > 0 ==> lines[i].last() != '\r') by {
        if i >= start {
            assert(lines[i] == row_line(rows[i - start]));
            assert(is_track_row(rows[i - start]));
        }
    }
    law_written_lines_are_read(lines);
    assert forall|i: int| 0 <= i < rows.len() implies lines[start + i] == row_line(
        #[trigger] rows[i],
    ) by {}
    lemma_written_rows(lines, rows, start, rows.len() as int);
    if header is None {
        assert(lines[0] == row_line(rows[0]));
    }
    let tracks = row_entries(lines, start, start + rows.len());
    assert forall|i: int| 0 <= i < rows.len() implies {
        let t = #[trigger] tracks[i];
        let cells = rows[i].cells;
        &&& t.track_name == trimmed(cells[0])
        &&& t.artist == trimmed(cells[1])
        &&& t.album == trimmed(cells[2])
        &&& cells.len() == 3 ==> t.playlist_name.len() == 0
        &&& cells.len() > 3 ==> t.playlist_name == trimmed(cells[3])
        &&& t.row_index == start + i
    } by {
        law_row_is_a_track(rows[i].cells, (start + i) as nat);
    }
}

/// A track as a line, all four fields in quotes.
pub open spec fn track_line(track: TrackText) -> Seq<char> {
    written_line(
        seq![track.track_name, track.artist, track.album, track.playlist_name],
        seq![true, true, true, true],
    )
}

/// A header and tracks as the lines of an export.
pub open spec fn export_lines(header: Seq<char>, tracks: Seq<TrackText>) -> Seq<Seq<char>> {
    seq![header] + tracks.map_values(|t: TrackText| track_line(t))
}

/// Whether no text of a track holds a line feed.
pub open spec fn is_on_one_line(track: TrackText) -> bool {
    &&& is_one_line(track.track_name)
    &&& is_one_line(track.artist)
    &&& is_one_line(track.album)
    &&& is_one_line(track.playlist_name)
}

proof fn lemma_doubled_is_one_line(text: Seq<char>)
    requires
        is_one_line(text),
    ensures
        is_one_line(doubled(text)),
    decreases text.len(),
{
    if text.len() > 0 {
        assert forall|i: int| 0 <= i < text.drop_first().len() implies text.drop_first()[i]
            != '\n' by {
            assert(text.drop_first()[i] == text[i + 1]);
        }
        lemma_doubled_is_one_line(text.drop_first());
        assert(text[0] != '\n');
    }
}

proof fn lemma_concat_is_one_line(a: Seq<char>, b: Seq<char>)
    requires
        is_one_line(a),
        is_one_line(b),
    ensures
        is_one_line(a + b),
{
}

proof fn lemma_joined_is_one_line(fields: Seq<Seq<char>>)
    requires
        forall|i: int| 0 <= i < fields.len() ==> is_one_line(#[trigger] fields[i]),
    ensures
        is_one_line(joined(fields)),
    decreases fields.len(),
{
    if fields.len() > 1 {
        let more = fields.drop_first();
        assert forall|i: int| 0 <= i < more.len() implies is_one_line(#[trigger] more[i]) by {
            assert(more[i] == fields[i + 1]);
        }
        lemma_joined_is_one_line(more);
        assert(is_one_line(fields[0]));
        lemma_concat_is_one_line(fields[0], seq![',']);
        lemma_concat_is_one_line(fields[0] + seq![','], joined(more));
    } else if fields.len() == 1 {
        assert(is_one_line(fields[0]));
    }
}

proof fn lemma_joined_last(fields: Seq<Seq<char>>)
    requires
        fields.len() > 0,
        fields.last().len() > 0,
    ensures
        joined(fields).len() > 0,
        joined(fields).last() == fields.last().last(),
    decreases fields.len(),
{
    if fields.len() > 1 {
        assert(fields.drop_first().last() == fields.last());
        lemma_joined_last(fields.drop_first());
    }
}

/// A track's line is one line that ends in a quote.
proof fn lemma_track_line(track: TrackText)
    requires
        is_on_one_line(track),
    ensures
        is_one_line(track_line(track)),
        track_line(track).len() > 0,
        track_line(track).last() == '"',
        line_fields(track_line(track)) == seq![
            track.track_name,
            track.artist,
            track.album,
            track.playlist_name,
        ],
{
    let fields = seq![track.track_name, track.artist, track.album, track.playlist_name];
    let quoted = seq![true, true, true, true];
    let written = Seq::new(fields.len(), |i: int| written_field(fields[i], quoted[i]));
    assert forall|i: int| 0 <= i < written.len() implies is_one_line(#[trigger] written[i]) by {
        assert(is_one_line(fields[i]));
        lemma_doubled_is_one_line(fields[i]);
        lemma_concat_is_one_line(seq!['"'], doubled(fields[i]));
        lemma_concat_is_one_line(seq!['"'] + doubled(fields[i]), seq!['"']);
    }
    lemma_joined_is_one_line(written);
    assert(written.last() == written_field(fields[3], true));
    lemma_joined_last(written);
    law_written_line_is_read(fields, quoted);
}

/// A tidy track's line is read as the track.
proof fn lemma_track_is_read(track: TrackText)
    requires
        is_tidy(track),
        is_on_one_line(track),
    ensures
        entry_of(line_fields(track_line(track)), track.row_index) == Some(track),
{
    lemma_track_line(track);
    assert(trimmed(track.track_name) == track.track_name) by {
        law_trimmed(track.track_name);
    }
    assert(trimmed(track.artist) == track.artist) by {
        law_trimmed(track.artist);
    }
    assert(trimmed(track.album) == track.album) by {
        law_trimmed(track.album);
    }
    assert(trimmed(track.playlist_name) == track.playlist_name) by {
        law_trimmed(track.playlist_name);
    }
}

/// The rows of an export are its tracks.
proof fn lemma_export_rows(header: Seq<char>, tracks: Seq<TrackText>, n: int)
    requires
        0 <= n <= tracks.len(),
        forall|i: int|
            0 <= i < tracks.len() ==> is_tidy(#[trigger] tracks[i]) && is_on_one_line(tracks[i])
                && tracks[i].row_index == i + 1,
    ensures
        row_entries(export_lines(header, tracks), 1, n + 1) == tracks.take(n),
    decreases n,
{
    if n > 0 {
        lemma_export_rows(header, tracks, n - 1);
        let t = tracks[n - 1];
        assert(export_lines(header, tracks)[n] == track_line(t));
        lemma_track_is_read(t);
        assert(tracks.take(n) =~= tracks.take(n - 1).push(t));
    } else {
        assert(tracks.take(0) =~= seq![]);
    }
}

/// What is exported is imported: a header line and then one line a track, with all fields in
/// quotes, is read back as exactly those tracks, numbered by their rows, with no row skipped. The
/// header must be recognised as one, and no text may hold a line feed, at which the file is split
/// into lines before quotes are looked at.
pub proof fn law_exported_tracks_are_imported(header: Seq<char>, tracks: Seq<TrackText>)
    requires
        names_columns(lowercase_of(header)),
        is_one_line(header),
        header.len() > 0 ==> header.last() != '\r',
        forall|i: int|
            0 <= i < tracks.len() ==> is_tidy(#[trigger] tracks[i]) && is_on_one_line(tracks[i])
                && tracks[i].row_index == i + 1,
    ensures
        parsed_text(written_lines(export_lines(header, tracks))) == (ParsedCsv {
            tracks,
            playlists: playlist_names(tracks),
            total_rows: tracks.len(),
            skipped_rows: 0,
        }),
{
    let lines = export_lines(header, tracks);
    assert forall|i: int| 0 <= i < lines.len() implies is_one_line(#[trigger] lines[i]) && (
    lines[i].len() > 0 ==> lines[i].last() != '\r') by {
        if i > 0 {
            assert(lines[i] == track_line(tracks[i - 1]));
            lemma_track_line(tracks[i - 1]);
        }
    }
    law_written_lines_are_read(lines);
    lemma_export_rows(header, tracks, tracks.len() as int);
    assert(tracks.take(tracks.len() as int) =~= tracks);
    assert(lines.first() == header);
}

/// What is stated of an entry holds of its fields, and what is stated of a parse result of its tracks,
/// names and counts, one by one.
pub proof fn law_views_of_entries_are_faithful(
    entry: CsvTrackEntry,
    entries: Seq<CsvTrackEntry>,
    result: CsvParseResult,
)
    ensures
        entry@.track_name == entry.track_name@,
        entry@.artist == entry.artist@,
        entry@.album == entry.album@,
        entry@.playlist_name == entry.playlist_name@,
        entry@.row_index == entry.row_index,
        track_texts(entries).len() == entries.len(),
        forall|i: int| 0 <= i < entries.len() ==> #[trigger] track_texts(entries)[i] == entries[i]@,
        result@.tracks.len() == result.tracks@.len(),
        forall|i: int|
            0 <= i < result.tracks@.len() ==> #[trigger] result@.tracks[i] == result.tracks@[i]@,
        result@.playlists.len() == result.playlists@.len(),
        forall|i: int|
            0 <= i < result.playlists@.len() ==> #[trigger] result@.playlists[i]
                == result.playlists@[i]@,
        result@.total_rows == result.total_rows,
        result@.skipped_rows == result.skipped_rows,
{
}

} // verus!
