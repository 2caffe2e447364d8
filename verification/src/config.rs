//! The projection policy: which content types are projected, how a projected
//! file is named, and which command transforms it.
//!
//! A policy is anything that implements [`ProjectionSpecification`]. Two
//! implementations are provided: [`DefaultConfig`], the built-in policy, and
//! [`ProjectionConfig`], made from the settings of a configuration document.

use vstd::prelude::*;
use crate::media::{in_mime_vec, matches_any, mime_views, parse_pattern, pattern_of, Mime, MimeView};
use crate::path::{
    file_name,
    is_absolute,
    lemma_extension_of_name,
    set_extension,
    with_extension,
    DOT,
    SEPARATOR,
};
use crate::text::{copy, lines, replace, replaced, same, slice, split_words, words};

verus! {

/// Why a configuration gives no policy.
#[derive(Clone, Copy, Debug, PartialEq, Eq)]
pub enum ConfigError {
    /// The document could not be opened or read.
    Unreadable,
    /// The document is not a well-formed list of settings.
    Malformed,
    /// One of the content-type patterns is not a pattern.
    InvalidMimeType,
}

/// The settings of a configuration document, as written by the user.
#[derive(Clone, Debug, PartialEq, Eq)]
pub struct PlainConfig {
    /// Patterns of the content types to project.
    pub mime_types: Vec<Vec<u8>>,
    /// Patterns of the content types never to project.
    pub ignored_mime_types: Option<Vec<Vec<u8>>>,
    /// The extension that projected files get, with or without a dot before it.
    pub name_mapping: Vec<u8>,
    /// The command line that transforms a file, holding `{input}` and `{output}`.
    pub projection_command: Vec<u8>,
}

/// A projection policy.
pub trait ProjectionSpecification: Send + Sync {
    /// Whether files of the content type `mime` are projected.
    spec fn projects(&self, mime: MimeView) -> bool;

    /// The name that the projection of `filename` gets.
    spec fn converted(&self, filename: Seq<u8>) -> Seq<u8>;

    /// The command line, program first, that writes the projection of the
    /// file at `input` to `output`.
    spec fn command(&self, input: Seq<u8>, output: Seq<u8>) -> Seq<Seq<u8>>;

    fn should_project(&self, mime: &Mime) -> (r: bool)
        ensures
            r == self.projects(mime@),
    ;

    fn convert_filename(&self, filename: &Vec<u8>) -> (r: Vec<u8>)
        ensures
            r@ == self.converted(filename@),
    ;

    fn project(&self, input: &Vec<u8>, output: &Vec<u8>) -> (r: Vec<Vec<u8>>)
        ensures
            lines(r@) == self.command(input@, output@),
    ;
}

/// The text `{input}`.
pub open spec fn input_token() -> Seq<u8> {
    seq![123u8, 105u8, 110u8, 112u8, 117u8, 116u8, 125u8]
}

/// The text `{output}`.
pub open spec fn output_token() -> Seq<u8> {
    seq![123u8, 111u8, 117u8, 116u8, 112u8, 117u8, 116u8, 125u8]
}

/// The text `audio`.
pub open spec fn audio() -> Seq<u8> {
    seq![97u8, 117u8, 100u8, 105u8, 111u8]
}

/// The text `video`.
pub open spec fn video() -> Seq<u8> {
    seq![118u8, 105u8, 100u8, 101u8, 111u8]
}

/// The text `ogg`.
pub open spec fn ogg() -> Seq<u8> {
    seq![111u8, 103u8, 103u8]
}

/// The command line `ffmpeg -i <input> -vn <output>`.
pub open spec fn default_command(input: Seq<u8>, output: Seq<u8>) -> Seq<Seq<u8>> {
    seq![
        seq![102u8, 102u8, 109u8, 112u8, 101u8, 103u8],
        seq![45u8, 105u8],
        input,
        seq![45u8, 118u8, 110u8],
        output,
    ]
}

/// Whether every text of `texts` is a content-type pattern.
pub open spec fn all_patterns(texts: Seq<Vec<u8>>) -> bool {
    forall|i: int| 0 <= i < texts.len() ==> (#[trigger] pattern_of(texts[i]@)).is_some()
}

/// The patterns that the texts of `texts` stand for.
pub open spec fn patterns_of(texts: Seq<Vec<u8>>) -> Seq<MimeView> {
    Seq::new(
        texts.len(),
        |i: int|
            MimeView {
                type_: pattern_of(texts[i]@).unwrap().0,
                subtype: pattern_of(texts[i]@).unwrap().1,
            },
    )
}

/// The extension that a naming rule stands for: the rule without the dot it
/// may begin with.
pub open spec fn target_extension(name_mapping: Seq<u8>) -> Seq<u8> {
    if name_mapping.len() > 0 && name_mapping[0] == DOT {
        name_mapping.skip(1)
    } else {
        name_mapping
    }
}

/// One word of a command template with the two paths put in: first every
/// `{input}` is replaced, then every `{output}` in what that gave.
pub open spec fn substituted(word: Seq<u8>, input: Seq<u8>, output: Seq<u8>) -> Seq<u8> {
    replaced(replaced(word, input_token(), input), output_token(), output)
}

/// Whether the settings describe a policy: every pattern in them is one.
pub open spec fn describes_policy(plain: PlainConfig) -> bool {
    all_patterns(plain.mime_types@) && (plain.ignored_mime_types.is_some() ==> all_patterns(
        plain.ignored_mime_types.unwrap()@,
    ))
}

/// The policy that the settings describe: the patterns as they read, none to
/// ignore where the settings name none, the extension without its dot, and
/// the command line split into its words.
pub open spec fn described_policy(plain: PlainConfig) -> ProjectionConfigView {
    ProjectionConfigView {
        mime_types: patterns_of(plain.mime_types@),
        ignored_mime_types: if plain.ignored_mime_types.is_some() {
            patterns_of(plain.ignored_mime_types.unwrap()@)
        } else {
            Seq::empty()
        },
        extension: target_extension(plain.name_mapping@),
        template: words(plain.projection_command@),
    }
}

/// What a [`ProjectionConfig`] holds.
pub struct ProjectionConfigView {
    /// The patterns of the content types to project.
    pub mime_types: Seq<MimeView>,
    /// The patterns of the content types never to project.
    pub ignored_mime_types: Seq<MimeView>,
    /// The extension that projected files get.
    pub extension: Seq<u8>,
    /// The words of the command template.
    pub template: Seq<Seq<u8>>,
}

/// The policy that a configuration document describes.
#[derive(Clone, Debug)]
pub struct ProjectionConfig {
    mime_types: Vec<Mime>,
    ignored_mime_types: Vec<Mime>,
    extension: Vec<u8>,
    template: Vec<Vec<u8>>,
}

impl View for ProjectionConfig {
    type V = ProjectionConfigView;

    closed spec fn view(&self) -> ProjectionConfigView {
        ProjectionConfigView {
            mime_types: mime_views(self.mime_types@),
            ignored_mime_types: mime_views(self.ignored_mime_types@),
            extension: self.extension@,
            template: lines(self.template@),
        }
    }
}

/// The built-in policy: audio and video are projected to Ogg, except audio
/// that is Ogg already, by way of `ffmpeg`.
#[derive(Clone, Copy, Debug)]
pub struct DefaultConfig;

/// Either of the two policies that this crate provides.
#[derive(Clone, Debug)]
pub enum Policy {
    BuiltIn(DefaultConfig),
    Configured(ProjectionConfig),
}

/// Reads the patterns of a configuration. Fails if one of the texts is no
/// pattern.
pub fn user_string_to_mime(string_mime_types: &Vec<Vec<u8>>) -> (r: Result<Vec<Mime>, ConfigError>)
    ensures
        r.is_ok() == all_patterns(string_mime_types@),
        r.is_ok() ==> mime_views(r.unwrap()@) == patterns_of(string_mime_types@),
        r.is_err() ==> r.unwrap_err() == ConfigError::InvalidMimeType,
{
    let mut mime_types: Vec<Mime> = Vec::new();
    let mut i: usize = 0;
    while i < string_mime_types.len()
        invariant
            i <= string_mime_types.len(),
            mime_types.len() == i,
            forall|j: int| 0 <= j < i ==> (#[trigger] pattern_of(string_mime_types@[j]@)).is_some(),
            forall|j: int|
                0 <= j < i ==> (#[trigger] mime_types@[j])@ == patterns_of(string_mime_types@)[j],
        decreases string_mime_types.len() - i,
    {
        match parse_pattern(&string_mime_types[i]) {
            Some(m) => {
                mime_types.push(m);
            },
            None => {
                return Err(ConfigError::InvalidMimeType);
            },
        }
        i += 1;
    }
    assert(mime_views(mime_types@) =~= patterns_of(string_mime_types@));
    Ok(mime_types)
}

fn ascii_audio() -> (r: Vec<u8>)
    ensures
        r@ == audio(),
{
    vec![97u8, 117u8, 100u8, 105u8, 111u8]
}

fn ascii_video() -> (r: Vec<u8>)
    ensures
        r@ == video(),
{
    vec![118u8, 105u8, 100u8, 101u8, 111u8]
}

fn ascii_ogg() -> (r: Vec<u8>)
    ensures
        r@ == ogg(),
{
    vec![111u8, 103u8, 103u8]
}

impl ProjectionConfig {
    /// Makes the policy that the settings `plain` describe. Fails if one
    /// of the content-type patterns is no pattern.
    pub fn from(plain: PlainConfig) -> (r: Result<ProjectionConfig, ConfigError>)
        ensures
            r.is_ok() == describes_policy(plain),
            r.is_ok() ==> r.unwrap()@ == described_policy(plain),
            r.is_err() ==> r.unwrap_err() == ConfigError::InvalidMimeType,
    {
        let mime_types = match user_string_to_mime(&plain.mime_types) {
            Ok(v) => v,
            Err(e) => {
                return Err(e);
            },
        };
        let ignored_mime_types = match &plain.ignored_mime_types {
            Some(texts) => match user_string_to_mime(texts) {
                Ok(v) => v,
                Err(e) => {
                    return Err(e);
                },
            },
            None => Vec::new(),
        };
        let mapping = &plain.name_mapping;
        let extension = if mapping.len() > 0 && mapping[0] == DOT {
            slice(mapping, 1, mapping.len())
        } else {
            copy(mapping)
        };
        let template = split_words(&plain.projection_command);
        let config = ProjectionConfig { mime_types, ignored_mime_types, extension, template };
        assert(mime_views(Seq::<Mime>::empty()) =~= Seq::<MimeView>::empty());
        Ok(config)
    }
}

impl ProjectionSpecification for ProjectionConfig {
    /// A content type is projected if one of the patterns to project selects
    /// it and none of the patterns to ignore does.
    open spec fn projects(&self, mime: MimeView) -> bool {
        !matches_any(self@.ignored_mime_types, mime) && matches_any(self@.mime_types, mime)
    }

    open spec fn converted(&self, filename: Seq<u8>) -> Seq<u8> {
        with_extension(filename, self@.extension)
    }

    open spec fn command(&self, input: Seq<u8>, output: Seq<u8>) -> Seq<Seq<u8>> {
        Seq::new(self@.template.len(), |i: int| substituted(self@.template[i], input, output))
    }

    fn should_project(&self, mime: &Mime) -> (r: bool) {
        !in_mime_vec(mime, &self.ignored_mime_types) && in_mime_vec(mime, &self.mime_types)
    }

    fn convert_filename(&self, filename: &Vec<u8>) -> (r: Vec<u8>) {
        set_extension(filename, &self.extension)
    }

    fn project(&self, input: &Vec<u8>, output: &Vec<u8>) -> (r: Vec<Vec<u8>>) {
        let input_mark: Vec<u8> = vec![123u8, 105u8, 110u8, 112u8, 117u8, 116u8, 125u8];
        let output_mark: Vec<u8> = vec![123u8, 111u8, 117u8, 116u8, 112u8, 117u8, 116u8, 125u8];
        let mut segments: Vec<Vec<u8>> = Vec::new();
        let mut i: usize = 0;
        while i < self.template.len()
            invariant
                i <= self.template.len(),
                input_mark@ == input_token(),
                output_mark@ == output_token(),
                segments.len() == i,
                forall|j: int|
                    0 <= j < i ==> (#[trigger] segments@[j])@ == substituted(
                        self.template@[j]@,
                        input@,
                        output@,
                    ),
            decreases self.template.len() - i,
        {
            let with_input = replace(&self.template[i], &input_mark, input);
            let with_both = replace(&with_input, &output_mark, output);
            segments.push(with_both);
            i += 1;
        }
        assert(lines(segments@) =~= self.command(input@, output@));
        segments
    }
}

impl ProjectionSpecification for DefaultConfig {
    open spec fn projects(&self, mime: MimeView) -> bool {
        (mime.type_ == audio() && mime.subtype != ogg()) || mime.type_ == video()
    }

    open spec fn converted(&self, filename: Seq<u8>) -> Seq<u8> {
        with_extension(filename, ogg())
    }

    open spec fn command(&self, input: Seq<u8>, output: Seq<u8>) -> Seq<Seq<u8>> {
        default_command(input, output)
    }

    fn should_project(&self, mime: &Mime) -> (r: bool) {
        let audio = ascii_audio();
        let video = ascii_video();
        let ogg = ascii_ogg();
        (same(&mime.type_, &audio) && !same(&mime.subtype, &ogg)) || same(&mime.type_, &video)
    }

    fn convert_filename(&self, filename: &Vec<u8>) -> (r: Vec<u8>) {
        let ogg = ascii_ogg();
        set_extension(filename, &ogg)
    }

    fn project(&self, input: &Vec<u8>, output: &Vec<u8>) -> (r: Vec<Vec<u8>>) {
        let mut segments: Vec<Vec<u8>> = Vec::new();
        segments.push(vec![102u8, 102u8, 109u8, 112u8, 101u8, 103u8]);
        segments.push(vec![45u8, 105u8]);
        segments.push(copy(input));
        segments.push(vec![45u8, 118u8, 110u8]);
        segments.push(copy(output));
        assert(lines(segments@) =~= default_command(input@, output@));
        segments
    }
}

impl ProjectionSpecification for Policy {
    open spec fn projects(&self, mime: MimeView) -> bool {
        match self {
            Policy::BuiltIn(p) => p.projects(mime),
            Policy::Configured(p) => p.projects(mime),
        }
    }

    open spec fn converted(&self, filename: Seq<u8>) -> Seq<u8> {
        match self {
            Policy::BuiltIn(p) => p.converted(filename),
            Policy::Configured(p) => p.converted(filename),
        }
    }

    open spec fn command(&self, input: Seq<u8>, output: Seq<u8>) -> Seq<Seq<u8>> {
        match self {
            Policy::BuiltIn(p) => p.command(input, output),
            Policy::Configured(p) => p.command(input, output),
        }
    }

    fn should_project(&self, mime: &Mime) -> (r: bool) {
        match self {
            Policy::BuiltIn(p) => p.should_project(mime),
            Policy::Configured(p) => p.should_project(mime),
        }
    }

    fn convert_filename(&self, filename: &Vec<u8>) -> (r: Vec<u8>) {
        match self {
            Policy::BuiltIn(p) => p.convert_filename(filename),
            Policy::Configured(p) => p.convert_filename(filename),
        }
    }

    fn project(&self, input: &Vec<u8>, output: &Vec<u8>) -> (r: Vec<Vec<u8>>) {
        match self {
            Policy::BuiltIn(p) => p.project(input, output),
            Policy::Configured(p) => p.project(input, output),
        }
    }
}

/// Whether reading a configuration gave a policy: the document was read and
/// its settings describe one.
pub open spec fn gives_policy(document: Result<PlainConfig, ConfigError>) -> bool {
    document.is_ok() && describes_policy(document.unwrap())
}

/// The policy of a configuration document, where `document` is what reading
/// the document gave. There is none where the document could not be read or
/// its settings describe no policy.
pub fn load(document: Result<PlainConfig, ConfigError>) -> (r: Option<Policy>)
    ensures
        r.is_some() == gives_policy(document),
        r.is_some() ==> r.unwrap() is Configured && r.unwrap()->Configured_0@ == described_policy(
            document.unwrap(),
        ),
{
    match document {
        Ok(plain) => match ProjectionConfig::from(plain) {
            Ok(config) => Some(Policy::Configured(config)),
            Err(_) => None,
        },
        Err(_) => None,
    }
}

/// The policy to run with: that of the configuration document where reading
/// it gave one, the built-in policy otherwise.
pub fn load_or_default(document: Result<PlainConfig, ConfigError>) -> (r: Policy)
    ensures
        gives_policy(document) ==> r is Configured && r->Configured_0@ == described_policy(
            document.unwrap(),
        ),
        !gives_policy(document) ==> r == Policy::BuiltIn(DefaultConfig),
{
    match load(document) {
        Some(policy) => policy,
        None => default(),
    }
}

/// The built-in policy.
pub fn default() -> (r: Policy)
    ensures
        r == Policy::BuiltIn(DefaultConfig),
{
    Policy::BuiltIn(DefaultConfig)
}

/// Whatever the patterns to project say, a content type that a pattern to
/// ignore selects is not projected.
pub proof fn law_ignored_wins(config: ProjectionConfig, mime: MimeView)
    requires
        matches_any(config@.ignored_mime_types, mime),
    ensures
        !config.projects(mime),
{
}

/// A naming rule may be written with or without a dot before the extension:
/// both name every file alike.
pub proof fn law_leading_dot_is_optional(extension: Seq<u8>, filename: Seq<u8>)
    requires
        !(extension.len() > 0 && extension[0] == DOT),
    ensures
        target_extension(seq![DOT] + extension) == target_extension(extension),
        with_extension(filename, target_extension(seq![DOT] + extension)) == with_extension(
            filename,
            target_extension(extension),
        ),
{
    assert((seq![DOT] + extension).skip(1) == extension);
}

/// Under a configured policy a projected file stays in its directory, and
/// its file name is the name of the file with the configured extension.
pub proof fn law_configured_name(config: ProjectionConfig, filename: Seq<u8>)
    requires
        !config@.extension.contains(SEPARATOR),
    ensures
        file_name(config.converted(filename)) == with_extension(
            file_name(filename),
            config@.extension,
        ),
        is_absolute(filename) ==> is_absolute(config.converted(filename)),
{
    lemma_extension_of_name(filename, config@.extension);
}

/// Under the built-in policy a projected file stays in its directory, and
/// its file name is the name of the file with the extension `ogg`.
pub proof fn law_default_name(filename: Seq<u8>)
    ensures
        file_name(DefaultConfig.converted(filename)) == with_extension(file_name(filename), ogg()),
        is_absolute(filename) ==> is_absolute(DefaultConfig.converted(filename)),
{
    assert(!ogg().contains(SEPARATOR)) by {
        if ogg().contains(SEPARATOR) {
            let i = choose|i: int| 0 <= i < ogg().len() && ogg()[i] == SEPARATOR;
            assert(ogg()[0] == 111 && ogg()[1] == 103 && ogg()[2] == 103);
        }
    }
    lemma_extension_of_name(filename, ogg());
}

} // verus!
