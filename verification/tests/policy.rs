use projfs::config::{
    load, load_or_default, user_string_to_mime, ConfigError, DefaultConfig, PlainConfig, Policy,
    ProjectionConfig, ProjectionSpecification,
};
use projfs::media::{guess_mime, in_mime_vec, normalize_pattern, parse_pattern, selects, Mime};

fn b(s: &str) -> Vec<u8> {
    s.as_bytes().to_vec()
}

fn mime(type_: &str, subtype: &str) -> Mime {
    Mime { type_: b(type_), subtype: b(subtype) }
}

fn plain(allow: &[&str], deny: Option<&[&str]>, name_mapping: &str, command: &str) -> PlainConfig {
    PlainConfig {
        mime_types: allow.iter().map(|s| b(s)).collect(),
        ignored_mime_types: deny.map(|d| d.iter().map(|s| b(s)).collect()),
        name_mapping: b(name_mapping),
        projection_command: b(command),
    }
}

fn configured(allow: &[&str], deny: Option<&[&str]>, name_mapping: &str, command: &str) -> ProjectionConfig {
    ProjectionConfig::from(plain(allow, deny, name_mapping, command)).unwrap()
}

#[test]
fn guess_goes_by_the_extension() {
    assert_eq!(guess_mime(&b("/src/media/clip.wav")), Some(mime("audio", "wav")));
    assert_eq!(guess_mime(&b("song.ogg")), Some(mime("audio", "ogg")));
    assert_eq!(guess_mime(&b("song.MP3")), Some(mime("audio", "mpeg")));
    assert_eq!(guess_mime(&b("film.mp4")), Some(mime("video", "mp4")));
    assert_eq!(guess_mime(&b("notes.txt")), Some(mime("text", "plain")));
}

#[test]
fn guess_leaves_the_suffix_out_of_the_subtype() {
    assert_eq!(guess_mime(&b("drawing.svg")), Some(mime("image", "svg")));
}

#[test]
fn guess_knows_nothing_without_a_known_extension() {
    assert_eq!(guess_mime(&b("/src/README")), None);
    assert_eq!(guess_mime(&b("file.no-such-extension")), None);
    assert_eq!(guess_mime(&b("")), None);
    assert_eq!(guess_mime(&b(".wav")), None);
    assert_eq!(guess_mime(&vec![b'a', b'.', 0xff, 0xfe]), None);
}

#[test]
fn guess_reads_names_that_are_not_utf8() {
    assert_eq!(guess_mime(&vec![0xff, 0xfe, b'.', b'w', b'a', b'v']), Some(mime("audio", "wav")));
}

#[test]
fn normalize_brings_patterns_to_one_form() {
    assert_eq!(normalize_pattern(&b("audio")), b("audio/"));
    assert_eq!(normalize_pattern(&b("audio/*")), b("audio/"));
    assert_eq!(normalize_pattern(&b("audio/ogg")), b("audio/ogg"));
    assert_eq!(normalize_pattern(&b("")), b("/"));
    assert_eq!(normalize_pattern(&b("/*")), b("/"));
}

#[test]
fn patterns_are_read_by_the_mime_parser() {
    assert_eq!(parse_pattern(&b("audio")), Some(mime("audio", "")));
    assert_eq!(parse_pattern(&b("audio/*")), Some(mime("audio", "")));
    assert_eq!(parse_pattern(&b("audio/ogg")), Some(mime("audio", "ogg")));
    assert_eq!(parse_pattern(&b("Audio/OGG")), Some(mime("audio", "ogg")));
    assert_eq!(parse_pattern(&b("image/svg+xml")), Some(mime("image", "svg")));
    assert_eq!(parse_pattern(&b("text/plain; charset=utf-8")), Some(mime("text", "plain")));
}

#[test]
fn what_is_no_pattern_is_rejected() {
    assert_eq!(parse_pattern(&b("")), None);
    assert_eq!(parse_pattern(&b("/*")), None);
    assert_eq!(parse_pattern(&b("au dio")), None);
    assert_eq!(parse_pattern(&b("audio/o gg")), None);
    assert_eq!(parse_pattern(&vec![0xff, b'/', b'x']), None);
}

#[test]
fn bare_type_matches_every_subtype() {
    let pattern = parse_pattern(&b("audio")).unwrap();
    assert!(selects(&pattern, &mime("audio", "wav")));
    assert!(selects(&pattern, &mime("audio", "ogg")));
    assert!(selects(&pattern, &mime("audio", "")));
    assert!(!selects(&pattern, &mime("video", "mp4")));
}

#[test]
fn wildcard_matches_every_subtype() {
    let pattern = parse_pattern(&b("video/*")).unwrap();
    assert!(selects(&pattern, &mime("video", "mp4")));
    assert!(selects(&pattern, &mime("video", "x-matroska")));
    assert!(!selects(&pattern, &mime("audio", "mp4")));
}

#[test]
fn exact_pattern_matches_that_subtype_only() {
    let pattern = parse_pattern(&b("audio/ogg")).unwrap();
    assert!(selects(&pattern, &mime("audio", "ogg")));
    assert!(!selects(&pattern, &mime("audio", "wav")));
    assert!(!selects(&pattern, &mime("video", "ogg")));
}

#[test]
fn in_mime_vec_looks_at_every_pattern() {
    let patterns = vec![mime("audio", "ogg"), mime("audio", "mpeg"), mime("video", "")];
    assert!(in_mime_vec(&mime("audio", "ogg"), &patterns));
    assert!(in_mime_vec(&mime("audio", "mpeg"), &patterns));
    assert!(in_mime_vec(&mime("video", "mp4"), &patterns));
    assert!(!in_mime_vec(&mime("audio", "wav"), &patterns));
    assert!(!in_mime_vec(&mime("text", "plain"), &patterns));
    assert!(!in_mime_vec(&mime("audio", "ogg"), &Vec::new()));
}

#[test]
fn user_strings_become_patterns() {
    assert_eq!(
        user_string_to_mime(&vec![b("audio"), b("video/*"), b("image/png")]),
        Ok(vec![mime("audio", ""), mime("video", ""), mime("image", "png")])
    );
    assert_eq!(user_string_to_mime(&Vec::new()), Ok(Vec::new()));
}

#[test]
fn one_bad_user_string_fails_them_all() {
    assert_eq!(
        user_string_to_mime(&vec![b("audio"), b("not a type"), b("image/png")]),
        Err(ConfigError::InvalidMimeType)
    );
}

#[test]
fn deny_list_overrides_allow_list() {
    let config = configured(&["audio", "video"], Some(&["audio/ogg", "video/*"]), "ogg", "x");
    assert!(config.should_project(&mime("audio", "wav")));
    assert!(!config.should_project(&mime("audio", "ogg")));
    assert!(!config.should_project(&mime("video", "mp4")));
    assert!(!config.should_project(&mime("text", "plain")));
}

#[test]
fn without_deny_list_the_allow_list_decides() {
    let config = configured(&["audio"], None, "ogg", "x");
    assert!(config.should_project(&mime("audio", "ogg")));
    assert!(config.should_project(&mime("audio", "wav")));
    assert!(!config.should_project(&mime("video", "mp4")));
}

#[test]
fn naming_rule_sets_the_suffix() {
    let config = configured(&["audio"], None, "ogg", "x");
    assert_eq!(config.convert_filename(&b("song.wav")), b("song.ogg"));
}

#[test]
fn naming_rule_with_leading_dot_is_the_same() {
    let plain_rule = configured(&["audio"], None, "ogg", "x");
    let dotted_rule = configured(&["audio"], None, ".ogg", "x");
    assert_eq!(dotted_rule.convert_filename(&b("song.wav")), b("song.ogg"));
    for name in ["song.wav", "/media/clip.wav", "noext", ".hidden", "a.b.c"] {
        assert_eq!(dotted_rule.convert_filename(&b(name)), plain_rule.convert_filename(&b(name)));
    }
}

#[test]
fn naming_rule_drops_one_dot_only() {
    let config = configured(&["audio"], None, "..ogg", "x");
    assert_eq!(config.convert_filename(&b("song.wav")), b("song..ogg"));
}

#[test]
fn command_template_takes_the_two_paths() {
    let config = configured(&["audio"], None, "ogg", "transcode -i {input} -o {output}");
    assert_eq!(
        config.project(&b("/src/media/clip.wav"), &b("/cache/media/clip.ogg")),
        vec![b("transcode"), b("-i"), b("/src/media/clip.wav"), b("-o"), b("/cache/media/clip.ogg")]
    );
}

#[test]
fn command_template_substitutes_inside_words() {
    let config = configured(&["audio"], None, "ogg", "conv  --in={input}\t--out={output} {input}");
    assert_eq!(
        config.project(&b("a b"), &b("c")),
        vec![b("conv"), b("--in=a b"), b("--out=c"), b("a b")]
    );
}

#[test]
fn empty_command_template_gives_no_words() {
    let config = configured(&["audio"], None, "ogg", "  ");
    assert_eq!(config.project(&b("a"), &b("c")), Vec::<Vec<u8>>::new());
}

#[test]
fn bad_pattern_gives_no_policy() {
    let r = ProjectionConfig::from(plain(&["audio", "no type"], None, "ogg", "x"));
    assert_eq!(r.err(), Some(ConfigError::InvalidMimeType));
    let r = ProjectionConfig::from(plain(&["audio"], Some(&["?? ??"]), "ogg", "x"));
    assert_eq!(r.err(), Some(ConfigError::InvalidMimeType));
}

#[test]
fn default_policy_projects_audio_and_video() {
    let policy = DefaultConfig;
    assert!(policy.should_project(&mime("audio", "wav")));
    assert!(policy.should_project(&mime("audio", "mpeg")));
    assert!(policy.should_project(&mime("video", "mp4")));
    assert!(policy.should_project(&mime("video", "ogg")));
    assert!(!policy.should_project(&mime("audio", "ogg")));
    assert!(!policy.should_project(&mime("text", "plain")));
    assert!(!policy.should_project(&mime("image", "png")));
}

#[test]
fn default_policy_names_and_transforms_to_ogg() {
    let policy = DefaultConfig;
    assert_eq!(policy.convert_filename(&b("/media/clip.wav")), b("/media/clip.ogg"));
    assert_eq!(
        policy.project(&b("/src/a.wav"), &b("/cache/a.ogg")),
        vec![b("ffmpeg"), b("-i"), b("/src/a.wav"), b("-vn"), b("/cache/a.ogg")]
    );
}

#[test]
fn load_gives_the_configured_policy() {
    let policy = load(Ok(plain(&["audio"], None, "ogg", "transcode -i {input} -o {output}"))).unwrap();
    assert!(matches!(policy, Policy::Configured(_)));
    assert!(policy.should_project(&mime("audio", "ogg")));
    assert!(!policy.should_project(&mime("video", "mp4")));
    assert_eq!(policy.convert_filename(&b("song.wav")), b("song.ogg"));
    assert_eq!(policy.project(&b("i"), &b("o")), vec![b("transcode"), b("-i"), b("i"), b("-o"), b("o")]);
}

#[test]
fn load_gives_nothing_for_a_bad_document() {
    assert!(load(Err(ConfigError::Unreadable)).is_none());
    assert!(load(Err(ConfigError::Malformed)).is_none());
    assert!(load(Ok(plain(&["no type"], None, "ogg", "x"))).is_none());
}

#[test]
fn invalid_policy_file_falls_back_to_default() {
    for document in [
        Err(ConfigError::Malformed),
        Err(ConfigError::Unreadable),
        Ok(plain(&["not a type"], None, "ogg", "x")),
    ] {
        let policy = load_or_default(document);
        assert!(matches!(policy, Policy::BuiltIn(_)));
        assert!(policy.should_project(&mime("audio", "wav")));
        assert!(policy.should_project(&mime("video", "mp4")));
        assert!(!policy.should_project(&mime("audio", "ogg")));
        assert_eq!(policy.convert_filename(&b("a.wav")), b("a.ogg"));
        assert_eq!(
            policy.project(&b("i"), &b("o")),
            vec![b("ffmpeg"), b("-i"), b("i"), b("-vn"), b("o")]
        );
    }
}

#[test]
fn valid_policy_file_is_used() {
    let policy = load_or_default(Ok(plain(&["text"], None, "md", "pandoc {input} -o {output}")));
    assert!(matches!(policy, Policy::Configured(_)));
    assert!(policy.should_project(&mime("text", "plain")));
    assert!(!policy.should_project(&mime("audio", "wav")));
    assert_eq!(policy.convert_filename(&b("a.txt")), b("a.md"));
}

#[test]
fn default_is_the_built_in_policy() {
    assert!(matches!(projfs::config::default(), Policy::BuiltIn(_)));
}
