//! The writer: records out as one compressed file of line-delimited JSON.

use crate::codec::{gunzip_of, gzip, gzip_of, BEST_COMPRESSION};
use crate::format::Format;
use crate::json::{reads_back, Record};
use crate::lines::{is_line, join_lines, lemma_join_push, lemma_split_join, LINE_FEED};
use crate::read::{file_decoding, lemma_first_malformed, lines_decoding, Outcome};
use vstd::prelude::*;
use vstd::utf8::*;

verus! {

/// The UTF-8 bytes of each of `texts`.
pub open spec fn encoded(texts: Seq<Seq<char>>) -> Seq<Seq<u8>> {
    Seq::new(texts.len(), |i: int| encode_utf8(texts[i]))
}

/// A byte of a character that takes more than one byte is no line feed, and
/// the byte of a character that takes one is the character itself.
proof fn lemma_char_bytes(c: char)
    requires
        c != '\n',
    ensures
        is_line(encode_scalar(c as u32)),
{
    let scalar = c as u32;
    char_is_scalar(c);
    if has_width_1_encoding(scalar) {
        assert((scalar & 0x7F) as u8 != 0x0A) by (bit_vector)
            requires
                scalar <= 0x7F,
                scalar != 0x0A,
        ;
    } else {
        assert(0xC0u8 | ((scalar >> 6) & 0x1F) as u8 >= 0x80) by (bit_vector);
        assert(0xE0u8 | ((scalar >> 12) & 0x0F) as u8 >= 0x80) by (bit_vector);
        assert(0xF0u8 | ((scalar >> 18) & 0x7) as u8 >= 0x80) by (bit_vector);
        assert(0x80u8 | (scalar & 0x3F) as u8 >= 0x80) by (bit_vector);
        assert(0x80u8 | ((scalar >> 6) & 0x3F) as u8 >= 0x80) by (bit_vector);
        assert(0x80u8 | ((scalar >> 12) & 0x3F) as u8 >= 0x80) by (bit_vector);
    }
}

/// A text without a line feed has UTF-8 bytes without one.
pub proof fn lemma_encoding_keeps_lines(text: Seq<char>)
    requires
        !text.contains('\n'),
    ensures
        is_line(encode_utf8(text)),
    decreases text.len(),
{
    if text.len() > 0 {
        lemma_encoding_keeps_lines(text.drop_first());
        lemma_char_bytes(text[0]);
    }
}

/// Gathers the records of a run as lines of JSON text and compresses them
/// when the run is over.
pub struct Writer {
    buffer: Vec<u8>,
    count: usize,
    written: Ghost<Seq<Seq<char>>>,
}

impl View for Writer {
    type V = Seq<Seq<char>>;

    /// The compact texts of the records written so far, oldest first.
    closed spec fn view(&self) -> Seq<Seq<char>> {
        self.written@
    }
}

impl Writer {
    /// The buffer holds the records written, one to a line, and nothing else.
    pub closed spec fn wf(&self) -> bool {
        &&& self.count == self@.len()
        &&& self.buffer@ == join_lines(encoded(self@))
        &&& forall|i: int| 0 <= i < self@.len() ==> is_line(#[trigger] encoded(self@)[i])
    }

    /// A writer that has written nothing.
    pub fn new() -> (r: Writer)
        ensures
            r.wf(),
            r@ == Seq::<Seq<char>>::empty(),
    {
        Writer { buffer: Vec::new(), count: 0, written: Ghost(Seq::empty()) }
    }

    /// The number of records written.
    pub fn count(&self) -> (r: usize)
        requires
            self.wf(),
        ensures
            r == self@.len(),
    {
        self.count
    }

    /// The lines written so far, as bytes: the text of each record, without
    /// any white space between its tokens, and a line feed after it.
    pub fn bytes(&self) -> (r: &Vec<u8>)
        requires
            self.wf(),
        ensures
            r@ == join_lines(encoded(self@)),
    {
        &self.buffer
    }

    /// Writes one record as one line.
    pub fn write(&mut self, record: &Record)
        requires
            old(self).wf(),
        ensures
            final(self).wf(),
            final(self)@ == old(self)@.push(record@),
    {
        let text = record.to_json();
        self.write_line(text.as_str());
    }

    /// Writes `text` and a line feed after it. The text is to hold no line
    /// feed itself, as the text of a record does not.
    pub fn write_line(&mut self, text: &str)
        requires
            old(self).wf(),
            !text@.contains('\n'),
        ensures
            final(self).wf(),
            final(self)@ == old(self)@.push(text@),
    {
        let ghost before = self@;
        let ghost after = before.push(text@);
        proof {
            lemma_encoding_keeps_lines(text@);
            assert(encoded(after) =~= encoded(before).push(encode_utf8(text@)));
            lemma_join_push(encoded(before), encode_utf8(text@));
        }
        self.buffer.extend_from_slice(text.as_bytes());
        self.buffer.push(LINE_FEED);
        proof {
            assert(self.buffer@ =~= join_lines(encoded(before)) + encode_utf8(text@)
                + seq![LINE_FEED]);
            lemma_buffer_holds_lines(encoded(after));
            assert(self.buffer@.len() == self.buffer.len() <= usize::MAX);
            assert forall|i: int| 0 <= i < after.len() implies is_line(
                #[trigger] encoded(after)[i],
            ) by {}
        }
        self.count = self.count + 1;
        self.written = Ghost(after);
    }

    /// Ends the file: compresses the lines written into one gzip stream at
    /// the best level, and gives `None` exactly where the encoder reports an
    /// error. The file reads back line for line as it was written: decoding it
    /// as a file of line-delimited JSON parses the text of each record in order.
    pub fn finish(self) -> (r: Option<Vec<u8>>)
        requires
            self.wf(),
        ensures
            match r {
                Some(file) => {
                    &&& gzip_of(join_lines(encoded(self@)), BEST_COMPRESSION) == Some(file@)
                    &&& gunzip_of(file@) == Some(join_lines(encoded(self@)))
                    &&& file_decoding(Format::JsonLinesGz, file@) == lines_decoding(
                        encoded(self@),
                    )
                },
                None => gzip_of(join_lines(encoded(self@)), BEST_COMPRESSION) is None,
            },
    {
        proof {
            lemma_split_join(encoded(self@));
        }
        gzip(self.buffer.as_slice())
    }
}

/// A buffer of joined lines is at least as long as the lines are many.
pub proof fn lemma_buffer_holds_lines(lines: Seq<Seq<u8>>)
    ensures
        lines.len() <= join_lines(lines).len(),
    decreases lines.len(),
{
    if lines.len() > 0 {
        lemma_buffer_holds_lines(lines.drop_first());
    }
}

/// Lines of texts that all read back decode to those texts, each in its
/// place, and decoding reaches the end.
pub proof fn lemma_lines_read_back(texts: Seq<Seq<char>>)
    requires
        forall|i: int| 0 <= i < texts.len() ==> reads_back(#[trigger] texts[i]),
    ensures
        lines_decoding(encoded(texts)) == (texts, Outcome::Complete),
{
    let lines = encoded(texts);
    lemma_first_malformed(lines);
}

/// Round trip. A file that the writer gave for records with the texts
/// `texts` decodes, as a file of line-delimited JSON, to records with the
/// same texts in the same order, provided that each text reads back: a
/// number may be printed with more digits than are read again, and a record
/// that holds such a number comes back with another number in its place.
pub proof fn lemma_written_file_reads_back(texts: Seq<Seq<char>>, file: Seq<u8>)
    requires
        gunzip_of(file) == Some(join_lines(encoded(texts))),
        forall|i: int| 0 <= i < texts.len() ==> !(#[trigger] texts[i]).contains('\n'),
        forall|i: int| 0 <= i < texts.len() ==> reads_back(#[trigger] texts[i]),
    ensures
        file_decoding(Format::JsonLinesGz, file) == (texts, Outcome::Complete),
{
    assert forall|i: int| 0 <= i < texts.len() implies is_line(#[trigger] encoded(texts)[i]) by {
        lemma_encoding_keeps_lines(texts[i]);
    }
    lemma_split_join(encoded(texts));
    lemma_lines_read_back(texts);
}

} // verus!
