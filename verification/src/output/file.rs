//! The sink that writes records to files on disk.
//!
//! The path of the file and the line that is written are both templates over
//! the record, so one sink may feed many files. The sink itself only hands
//! records over; a writer on a thread of its own decides which file a record
//! goes to, whether that file has to be opened first, and what is written.

use vstd::prelude::*;
use vstd::utf8::encode_utf8;
use crate::component::{get_string, string_field, FactoryError, FactoryErrorView};
use crate::json::{Json, JsonView};
use crate::output::{effects_view, Effect, EffectView, Output, OutputFactory, Sink, SinkView};
use crate::template::{parse, render, ErrorView, Generator, ParseError, TokenView};
use crate::text::str_eq;

verus! {

/// Why a file sink could not be made.
#[derive(Clone, Copy, Debug, PartialEq, Eq, Structural)]
pub enum Error {
    /// The path is no template.
    Path(ParseError),
    /// The pattern is no template.
    Pattern(ParseError),
}

/// Why a record was not written.
#[derive(Debug, PartialEq)]
pub enum WriteError {
    /// A template has no text for the record.
    Format(crate::template::Error),
    /// The disk refused; these are its words.
    Io(String),
}

/// What to do with one record: append `line` to the file at `path`, which
/// has to be opened first where `open` says so.
#[derive(Debug, PartialEq)]
pub struct Write {
    /// The file that the record goes to.
    pub path: String,
    /// Whether the file is not open yet. Then its directory is to be made
    /// if it is missing, the file opened for appending and made if it is
    /// missing, and the writer told with [`Writer::opened`].
    pub open: bool,
    /// The bytes to append, the line feed included; or the reason why the
    /// pattern has none, which is found only after the file was opened.
    pub line: Result<Vec<u8>, crate::template::Error>,
}

/// The files that a template over records leads to, and what goes into
/// them.
pub struct Writer {
    path: Generator,
    pattern: Generator,
    files: Vec<String>,
}

/// What a [`Writer`] is: its two templates, and the paths of the files that
/// it holds open.
pub struct WriterView {
    pub path: Seq<TokenView>,
    pub pattern: Seq<TokenView>,
    pub files: Set<Seq<char>>,
}

/// The templates of a writer for `path` and `pattern`; the path is read
/// first.
pub open spec fn writer_templates(path: Seq<char>, pattern: Seq<char>) -> Result<
    (Seq<TokenView>, Seq<TokenView>),
    Error,
> {
    match parse(path) {
        Err(error) => Err(Error::Path(error)),
        Ok(path) => match parse(pattern) {
            Err(error) => Err(Error::Pattern(error)),
            Ok(pattern) => Ok((path, pattern)),
        },
    }
}

/// The line that `pattern` gives for `record`: its text as bytes, and a line
/// feed.
pub open spec fn line_of(pattern: Seq<TokenView>, record: JsonView) -> Result<Seq<u8>, ErrorView> {
    match render(pattern, record) {
        Ok(text) => Ok(encode_utf8(text).push(10u8)),
        Err(error) => Err(error),
    }
}

impl View for Writer {
    type V = WriterView;

    closed spec fn view(&self) -> WriterView {
        WriterView {
            path: self.path@,
            pattern: self.pattern@,
            files: Set::new(
                |path: Seq<char>| exists|i: int| 0 <= i < self.files.len() && self.files[i]@ == path,
            ),
        }
    }
}

impl Writer {
    /// No path is held twice.
    #[verifier::type_invariant]
    spec fn holds_no_path_twice(&self) -> bool {
        forall|i: int, j: int|
            0 <= i < j < self.files.len() ==> self.files[i]@ != self.files[j]@
    }

    /// A writer with no file open.
    ///
    /// # Fails
    ///
    /// Function may fail if either of the given path or pattern is invalid.
    pub fn new(path: &str, pattern: &str) -> (made: Result<Writer, Error>)
        ensures
            match made {
                Ok(writer) => writer_templates(path@, pattern@) == Ok::<
                    (Seq<TokenView>, Seq<TokenView>),
                    Error,
                >((writer@.path, writer@.pattern)) && writer@.files == Set::<Seq<char>>::empty(),
                Err(error) => writer_templates(path@, pattern@) == Err::<
                    (Seq<TokenView>, Seq<TokenView>),
                    Error,
                >(error),
            },
    {
        let path = match Generator::new(path) {
            Ok(path) => path,
            Err(error) => {
                return Err(Error::Path(error));
            },
        };
        let pattern = match Generator::new(pattern) {
            Ok(pattern) => pattern,
            Err(error) => {
                return Err(Error::Pattern(error));
            },
        };
        let writer = Writer { path, pattern, files: Vec::new() };
        assert(writer@.files =~= Set::<Seq<char>>::empty());
        Ok(writer)
    }

    /// Whether the file at `path` is held open.
    pub fn is_open(&self, path: &str) -> (held: bool)
        ensures
            held == self@.files.contains(path@),
    {
        let mut i: usize = 0;
        while i < self.files.len()
            invariant
                i <= self.files.len(),
                forall|k: int| 0 <= k < i ==> self.files[k]@ != path@,
            decreases self.files.len() - i,
        {
            if str_eq(self.files[i].as_str(), path) {
                return true;
            }
            i += 1;
        }
        false
    }

    /// What to do with `record`. Where the path has no text for it, the
    /// record is to be dropped and nothing is opened.
    pub fn write(&self, record: &Json) -> (plan: Result<Write, WriteError>)
        ensures
            match plan {
                Ok(write) => {
                    &&& render(self@.path, record@) == Ok::<Seq<char>, ErrorView>(write.path@)
                    &&& write.open == !self@.files.contains(write.path@)
                    &&& match write.line {
                        Ok(line) => line_of(self@.pattern, record@) == Ok::<Seq<u8>, ErrorView>(
                            line@,
                        ),
                        Err(error) => line_of(self@.pattern, record@) == Err::<
                            Seq<u8>,
                            ErrorView,
                        >(error@),
                    }
                },
                Err(WriteError::Format(error)) => render(self@.path, record@) == Err::<
                    Seq<char>,
                    ErrorView,
                >(error@),
                Err(WriteError::Io(_)) => false,
            },
    {
        let path = match self.path.consume(record) {
            Ok(path) => path,
            Err(error) => {
                return Err(WriteError::Format(error));
            },
        };
        let open = !self.is_open(path.as_str());
        let mut buf: Vec<u8> = Vec::new();
        let line = match self.pattern.feed(&mut buf, record) {
            Ok(_) => {
                buf.push(10);
                Ok(buf)
            },
            Err(error) => Err(error),
        };
        Ok(Write { path, open, line })
    }

    /// Takes note that the file at `path` is open now.
    pub fn opened(&mut self, path: String)
        ensures
            final(self)@.files == old(self)@.files.insert(path@),
            final(self)@.path == old(self)@.path,
            final(self)@.pattern == old(self)@.pattern,
    {
        proof {
            use_type_invariant(&*self);
        }
        if !self.is_open(path.as_str()) {
            let mut files: Vec<String> = Vec::new();
            std::mem::swap(&mut self.files, &mut files);
            files.push(path);
            self.files = files;
        }
        assert(self@.files =~= old(self)@.files.insert(path@)) by {
            assert forall|p: Seq<char>|
                self@.files.contains(p) <==> old(self)@.files.insert(path@).contains(p) by {
                if old(self)@.files.contains(p) {
                    let i = choose|i: int| 0 <= i < old(self).files.len() && old(self).files[i]@ == p;
                    assert(self.files[i]@ == p);
                }
                if p == path@ && !old(self)@.files.contains(path@) {
                    assert(self.files[self.files.len() - 1]@ == p);
                }
            }
        }
    }

    /// Lets go of every file, so that the next record for any path opens
    /// its file afresh. Returns the paths that were held.
    pub fn reopen(&mut self) -> (closed: Vec<String>)
        ensures
            final(self)@.files == Set::<Seq<char>>::empty(),
            final(self)@.path == old(self)@.path,
            final(self)@.pattern == old(self)@.pattern,
            forall|path: Seq<char>|
                old(self)@.files.contains(path) <==> exists|i: int|
                    0 <= i < closed.len() && closed[i]@ == path,
    {
        let mut closed: Vec<String> = Vec::new();
        std::mem::swap(&mut self.files, &mut closed);
        assert(self@.files =~= Set::<Seq<char>>::empty());
        closed
    }
}

/// Represents file output that writes events to files on disk.
///
/// This kind of output accepts incoming record, generates an individual path
/// from the configuration allowing to use fields from the record as parts of
/// the filename and/or path and formats it using specified format and writes
/// the result into the file. If a required field was not found the event
/// will be dropped with error log.
///
/// Note that all subdirectories and files (with append mode) will be created
/// automatically on demand.
#[derive(Debug, PartialEq)]
pub struct FileOutput {
    path: String,
    pattern: String,
}

impl View for FileOutput {
    type V = (Seq<char>, Seq<char>);

    closed spec fn view(&self) -> (Seq<char>, Seq<char>) {
        (self.path@, self.pattern@)
    }
}

impl FileOutput {
    #[verifier::type_invariant]
    spec fn both_are_templates(&self) -> bool {
        writer_templates(self.path@, self.pattern@).is_ok()
    }

    /// A file sink for these two templates, if they are templates.
    pub fn new(path: String, pattern: String) -> (made: Result<FileOutput, Error>)
        ensures
            match made {
                Ok(output) => writer_templates(path@, pattern@).is_ok() && output@ == (
                    path@,
                    pattern@,
                ),
                Err(error) => writer_templates(path@, pattern@) == Err::<
                    (Seq<TokenView>, Seq<TokenView>),
                    Error,
                >(error),
            },
    {
        match Writer::new(path.as_str(), pattern.as_str()) {
            Ok(_) => Ok(FileOutput { path, pattern }),
            Err(error) => Err(error),
        }
    }

    /// The writer that does this sink's work, with no file open.
    pub fn writer(&self) -> (writer: Writer)
        ensures
            writer_templates(self@.0, self@.1) == Ok::<(Seq<TokenView>, Seq<TokenView>), Error>(
                (writer@.path, writer@.pattern),
            ),
            writer@.files == Set::<Seq<char>>::empty(),
    {
        proof {
            use_type_invariant(self);
        }
        match Writer::new(self.path.as_str(), self.pattern.as_str()) {
            Ok(writer) => writer,
            Err(_) => vstd::pervasive::unreached(),
        }
    }
}

impl Clone for FileOutput {
    /// A copy with the same templates.
    fn clone(&self) -> (copy: FileOutput)
        ensures
            copy@ == self@,
    {
        proof {
            use_type_invariant(self);
        }
        FileOutput { path: self.path.clone(), pattern: self.pattern.clone() }
    }
}

impl Output for FileOutput {
    /// The record goes to the writer, whatever it holds.
    open spec fn effects(&self, record: JsonView) -> Seq<EffectView> {
        seq![EffectView::Enqueue]
    }

    open spec fn reopens(&self) -> bool {
        true
    }

    fn handle(&self, _record: &Json) -> (effects: Vec<Effect>) {
        let mut effects: Vec<Effect> = Vec::new();
        effects.push(Effect::Enqueue);
        assert(effects_view(effects@) =~= seq![EffectView::Enqueue]);
        effects
    }

    fn hup(&self) -> (wanted: bool) {
        true
    }
}

/// What a file sink is configured with.
#[derive(Debug, PartialEq)]
pub struct Config {
    /// The template of the path.
    pub path: String,
    /// The template of the line.
    pub pattern: String,
}

/// The configuration that `cfg` spells: its `path` and its `pattern` have
/// to be there, and strings.
pub open spec fn file_config_of(cfg: JsonView) -> Result<(Seq<char>, Seq<char>), FactoryErrorView> {
    match string_field(cfg, "path"@) {
        Err(error) => Err(error),
        Ok(path) => match string_field(cfg, "pattern"@) {
            Err(error) => Err(error),
            Ok(pattern) => Ok((path, pattern)),
        },
    }
}

/// The file sink that `cfg` describes: the two strings of its configuration
/// have to be templates.
pub open spec fn file_output_of(cfg: JsonView) -> Result<SinkView, FactoryErrorView> {
    match file_config_of(cfg) {
        Err(error) => Err(error),
        Ok((path, pattern)) => match writer_templates(path, pattern) {
            Err(Error::Path(error)) => Err(FactoryErrorView::Path(error)),
            Err(Error::Pattern(error)) => Err(FactoryErrorView::Pattern(error)),
            Ok(_) => Ok(SinkView::File(path, pattern)),
        },
    }
}

impl Config {
    /// The configuration that `cfg` spells.
    pub fn read(cfg: &Json) -> (config: Result<Config, FactoryError>)
        ensures
            match config {
                Ok(config) => file_config_of(cfg@) == Ok::<
                    (Seq<char>, Seq<char>),
                    FactoryErrorView,
                >((config.path@, config.pattern@)),
                Err(error) => file_config_of(cfg@) == Err::<
                    (Seq<char>, Seq<char>),
                    FactoryErrorView,
                >(error@),
            },
    {
        let path = match get_string(cfg, "path") {
            Ok(path) => path.to_owned(),
            Err(error) => {
                return Err(error);
            },
        };
        let pattern = match get_string(cfg, "pattern") {
            Ok(pattern) => pattern.to_owned(),
            Err(error) => {
                return Err(error);
            },
        };
        Ok(Config { path, pattern })
    }
}

impl OutputFactory for FileOutput {
    open spec fn name() -> Seq<char> {
        "file"@
    }

    open spec fn made_from(cfg: JsonView) -> Result<SinkView, FactoryErrorView> {
        file_output_of(cfg)
    }

    fn ty() -> (name: &'static str) {
        "file"
    }

    fn from(cfg: &Json) -> (made: Result<Sink, FactoryError>) {
        let config = match Config::read(cfg) {
            Ok(config) => config,
            Err(error) => {
                return Err(error);
            },
        };
        match FileOutput::new(config.path, config.pattern) {
            Ok(output) => Ok(Sink::File(output)),
            Err(Error::Path(error)) => Err(FactoryError::Path(error)),
            Err(Error::Pattern(error)) => Err(FactoryError::Pattern(error)),
        }
    }
}

} // verus!
