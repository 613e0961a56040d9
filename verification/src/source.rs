//! Source files, their identities, and character spans into them.

use vstd::prelude::*;

verus! {

/// The text of a source file, kept in `ariadne`'s line-indexed storage.
/// Verus does not take a declaration of `ariadne::Source` itself (its type
/// parameter is bounded by `AsRef<str>`), so the storage sits behind this field.
#[verifier::external_body]
pub struct SourceText {
    source: ariadne::Source<String>,
}

/// The characters that a [`SourceText`] holds.
pub uninterp spec fn source_contents(source: SourceText) -> Seq<char>;

impl SourceText {
    /// Calls `ariadne::Source::from`, which keeps the given text as the source's contents.
    #[verifier::external_body]
    fn from_text(text: String) -> (source: SourceText)
        ensures
            source_contents(source) == text@,
    {
        SourceText { source: ariadne::Source::from(text) }
    }

    /// Calls `ariadne::Source::text`, which hands back the text that the source was built from.
    #[verifier::external_body]
    fn text(&self) -> (text: &str)
        ensures
            text@ == source_contents(*self),
    {
        self.source.text()
    }
}

/// Identifies a source file within a [`SourceFileManager`].
#[derive(Debug, Clone, Copy, PartialEq, Eq, Structural, Hash)]
pub struct SourceId(pub usize);

/// A half-open range of character offsets `start..end` in one source file.
#[derive(Debug, Clone, Copy, PartialEq, Eq, Structural, Hash)]
pub struct Span {
    pub source: SourceId,
    pub start: usize,
    pub end: usize,
}

impl Span {
    /// The number of characters the span covers, zero when it is reversed.
    pub open spec fn width(self) -> int {
        if self.start <= self.end { self.end - self.start } else { 0 }
    }
}

/// Where the character offset `offset` falls in a text of `len` characters:
/// offsets past the end fall at the end.
pub open spec fn clamp_offset(offset: usize, len: nat) -> int {
    if offset <= len { offset as int } else { len as int }
}

/// The characters that `span` covers in `text`, offsets past the end taken as the end.
pub open spec fn span_contents(text: Seq<char>, span: Span) -> Seq<char> {
    text.subrange(clamp_offset(span.start, text.len()), clamp_offset(span.end, text.len()))
}

/// A span can be read from `text` unless its start falls after its end
/// once both are held to the text.
pub open spec fn span_readable(text: Seq<char>, span: Span) -> bool {
    clamp_offset(span.start, text.len()) <= clamp_offset(span.end, text.len())
}

/// One source file: its identity, its name and its text.
pub struct SourceFile {
    id: SourceId,
    name: String,
    source: SourceText,
    chars: Vec<char>,
}

impl SourceFile {
    #[verifier::type_invariant]
    closed spec fn chars_match_source(self) -> bool {
        self.chars@ == source_contents(self.source)
    }

    /// The identity of the file.
    pub closed spec fn spec_id(&self) -> SourceId {
        self.id
    }

    /// The name of the file, usually its path.
    pub closed spec fn spec_name(&self) -> Seq<char> {
        self.name@
    }

    /// The characters of the file.
    pub closed spec fn contents(&self) -> Seq<char> {
        self.chars@
    }

    /// Builds a source file from its identity, name and text.
    pub fn new(id: SourceId, name: String, text: String) -> (file: SourceFile)
        ensures
            file.spec_id() == id,
            file.spec_name() == name@,
            file.contents() == text@,
    {
        let chars = chars_of(text.as_str());
        let source = SourceText::from_text(text);
        SourceFile { id, name, source, chars }
    }

    /// The identity of the file.
    pub fn id(&self) -> (id: SourceId)
        ensures
            id == self.spec_id(),
    {
        self.id
    }

    /// The name of the file.
    pub fn name(&self) -> (name: &String)
        ensures
            name@ == self.spec_name(),
    {
        &self.name
    }

    /// The full text of the file.
    pub fn text(&self) -> (text: &str)
        ensures
            text@ == self.contents(),
    {
        proof {
            use_type_invariant(self);
        }
        self.source.text()
    }

    /// The characters of the file, one per element.
    pub fn chars(&self) -> (chars: &Vec<char>)
        ensures
            chars@ == self.contents(),
    {
        &self.chars
    }

    /// The number of characters in the file.
    pub fn len(&self) -> (len: usize)
        ensures
            len == self.contents().len(),
    {
        self.chars.len()
    }

    /// The span `start..end` in this file.
    pub fn span(&self, start: usize, end: usize) -> (span: Span)
        ensures
            span == (Span { source: self.spec_id(), start, end }),
    {
        Span { source: self.id, start, end }
    }

    /// The empty span at the last character of the file.
    pub fn eof_span(&self) -> (span: Span)
        requires
            self.contents().len() > 0,
        ensures
            span == (Span {
                source: self.spec_id(),
                start: (self.contents().len() - 1) as usize,
                end: (self.contents().len() - 1) as usize,
            }),
    {
        let last = self.chars.len() - 1;
        Span { source: self.id, start: last, end: last }
    }

    /// The span from the start of `start_span` to the end of `end_span`.
    pub fn fromto(&self, start_span: Span, end_span: Span) -> (span: Span)
        requires
            start_span.source == end_span.source,
        ensures
            span == (Span { source: self.spec_id(), start: start_span.start, end: end_span.end }),
    {
        self.span(start_span.start, end_span.end)
    }

    /// The characters that `span` covers, offsets past the end of the file
    /// taken as the end.
    pub fn span_chars(&self, span: Span) -> (chars: Vec<char>)
        requires
            span_readable(self.contents(), span),
        ensures
            chars@ == span_contents(self.contents(), span),
    {
        let len = self.chars.len();
        let start = if span.start <= len { span.start } else { len };
        let end = if span.end <= len { span.end } else { len };
        let mut chars: Vec<char> = Vec::new();
        let mut i = start;
        while i < end
            invariant
                start <= i <= end <= len == self.chars@.len(),
                chars@ == self.chars@.subrange(start as int, i as int),
            decreases end - i,
        {
            chars.push(self.chars[i]);
            i += 1;
        }
        chars
    }

    /// The text that `span` covers, offsets past the end of the file taken as the end.
    pub fn span_text(&self, span: Span) -> (text: String)
        requires
            span_readable(self.contents(), span),
        ensures
            text@ == span_contents(self.contents(), span),
    {
        let chars = self.span_chars(span);
        string_from_chars(&chars)
    }
}

/// Calls `String::from_iter` on the characters, which collects them in order.
#[verifier::external_body]
pub(crate) fn string_from_chars(chars: &[char]) -> (text: String)
    ensures
        text@ == chars@,
{
    String::from_iter(chars.iter())
}

/// The source files of one compilation, each at the index of its identity.
pub struct SourceFileManager {
    files: Vec<SourceFile>,
}

impl SourceFileManager {
    #[verifier::type_invariant]
    closed spec fn ids_are_indices(self) -> bool {
        forall|i: int| 0 <= i < self.files@.len() ==> #[trigger] self.files@[i].spec_id() == SourceId(i as usize)
    }

    /// The files, in the order they were added.
    pub closed spec fn view_files(&self) -> Seq<SourceFile> {
        self.files@
    }

    /// A manager with no files.
    pub fn new() -> (manager: SourceFileManager)
        ensures
            manager.view_files().len() == 0,
    {
        SourceFileManager { files: Vec::new() }
    }

    /// Adds a file and returns its identity, the number of files before it.
    pub fn add_file(&mut self, name: String, content: String) -> (id: SourceId)
        ensures
            id == SourceId(old(self).view_files().len() as usize),
            final(self).view_files().len() == old(self).view_files().len() + 1,
            final(self).view_files().take(old(self).view_files().len() as int) == old(self).view_files(),
            final(self).view_files().last().spec_id() == id,
            final(self).view_files().last().spec_name() == name@,
            final(self).view_files().last().contents() == content@,
    {
        proof {
            use_type_invariant(&*self);
        }
        let new_id = SourceId(self.files.len());
        let file = SourceFile::new(new_id, name, content);
        let mut files: Vec<SourceFile> = Vec::new();
        std::mem::swap(&mut files, &mut self.files);
        files.push(file);
        assert(files@.take(old(self).files@.len() as int) =~= old(self).files@);
        self.files = files;
        new_id
    }

    /// The files, in the order they were added.
    pub fn files(&self) -> (files: &[SourceFile])
        ensures
            files@ == self.view_files(),
    {
        self.files.as_slice()
    }

    /// The file with the given identity.
    pub fn get_file(&self, id: SourceId) -> (file: &SourceFile)
        requires
            id.0 < self.view_files().len(),
        ensures
            *file == self.view_files()[id.0 as int],
            file.spec_id() == id,
    {
        proof {
            use_type_invariant(self);
        }
        &self.files[id.0]
    }

    /// The characters of the file that `span` points into.
    pub open spec fn file_contents(&self, source: SourceId) -> Seq<char> {
        self.view_files()[source.0 as int].contents()
    }

    /// The characters that `span` covers in its file.
    pub fn span_chars(&self, span: Span) -> (chars: Vec<char>)
        requires
            span.source.0 < self.view_files().len(),
            span_readable(self.file_contents(span.source), span),
        ensures
            chars@ == span_contents(self.file_contents(span.source), span),
    {
        self.get_file(span.source).span_chars(span)
    }

    /// The text that `span` covers in its file.
    pub fn span_text(&self, span: Span) -> (text: String)
        requires
            span.source.0 < self.view_files().len(),
            span_readable(self.file_contents(span.source), span),
        ensures
            text@ == span_contents(self.file_contents(span.source), span),
    {
        self.get_file(span.source).span_text(span)
    }
}

/// Copies the characters of a string into a vector.
pub fn chars_of(text: &str) -> (chars: Vec<char>)
    ensures
        chars@ == text@,
{
    let mut chars: Vec<char> = Vec::new();
    for c in it: text.chars()
        invariant
            chars@ == it.seq().take(it.index() as int),
    {
        chars.push(c);
    }
    chars
}

} // verus!
