use projfs::path::{absolute, base_name, join, name_offset, parent_dir, real_path, rfind, set_extension};
use projfs::text::{append, blank, contains, copy, ends_with, matches_at, replace, same, slice, split_words};

fn b(s: &str) -> Vec<u8> {
    s.as_bytes().to_vec()
}

#[test]
fn slice_copies_the_range() {
    assert_eq!(slice(&b("abcdef"), 1, 4), b("bcd"));
    assert_eq!(slice(&b("abcdef"), 2, 2), b(""));
    assert_eq!(copy(&b("abc")), b("abc"));
}

#[test]
fn append_puts_the_tail_behind() {
    let mut head = b("ab");
    append(&mut head, &b("cd"));
    assert_eq!(head, b("abcd"));
    append(&mut head, &b(""));
    assert_eq!(head, b("abcd"));
}

#[test]
fn same_compares_contents() {
    assert!(same(&b("audio"), &b("audio")));
    assert!(!same(&b("audio"), &b("audi0")));
    assert!(!same(&b("audio"), &b("audi")));
    assert!(same(&b(""), &b("")));
}

#[test]
fn suffixes_and_occurrences() {
    assert!(ends_with(&b("audio/*"), &b("/*")));
    assert!(!ends_with(&b("audio/ogg"), &b("/*")));
    assert!(!ends_with(&b("*"), &b("/*")));
    assert!(matches_at(&b("a{input}b"), 1, &b("{input}")));
    assert!(!matches_at(&b("a{input}b"), 2, &b("{input}")));
    assert!(!matches_at(&b("abc"), 7, &b("")));
}

#[test]
fn contains_finds_a_byte() {
    assert!(contains(&b("audio/ogg"), b'/'));
    assert!(!contains(&b("audio"), b'/'));
    assert!(!contains(&b(""), b'/'));
}

#[test]
fn blanks_are_the_five_ascii_blanks() {
    for c in [b' ', b'\t', b'\n', 12u8, b'\r'] {
        assert!(blank(c));
    }
    assert!(!blank(b'a'));
    assert!(!blank(0));
    assert!(!blank(11));
}

#[test]
fn replace_substitutes_every_occurrence() {
    assert_eq!(replace(&b("{input}"), &b("{input}"), &b("/a/b")), b("/a/b"));
    assert_eq!(replace(&b("--in={input},{input}"), &b("{input}"), &b("x")), b("--in=x,x"));
    assert_eq!(replace(&b("-vn"), &b("{input}"), &b("x")), b("-vn"));
    assert_eq!(replace(&b("aaa"), &b("aa"), &b("b")), b("ba"));
    assert_eq!(replace(&b("abc"), &b(""), &b("x")), b("abc"));
    assert_eq!(replace(&b(""), &b("a"), &b("x")), b(""));
    assert_eq!(replace(&b("{inpu"), &b("{input}"), &b("x")), b("{inpu"));
}

#[test]
fn split_words_drops_blanks() {
    assert_eq!(
        split_words(&b("transcode -i {input} -o {output}")),
        vec![b("transcode"), b("-i"), b("{input}"), b("-o"), b("{output}")]
    );
    assert_eq!(split_words(&b("  a \t b\n")), vec![b("a"), b("b")]);
    assert_eq!(split_words(&b("")), Vec::<Vec<u8>>::new());
    assert_eq!(split_words(&b("   ")), Vec::<Vec<u8>>::new());
    assert_eq!(split_words(&b("one")), vec![b("one")]);
}

#[test]
fn real_path_joins_under_the_root() {
    assert_eq!(real_path(&b("/src"), &b("/media/clip.wav")), b("/src/media/clip.wav"));
    assert_eq!(real_path(&b("/src/"), &b("/media/clip.wav")), b("/src/media/clip.wav"));
    assert_eq!(real_path(&b("/src"), &b("/")), b("/src/"));
    assert_eq!(real_path(&b("/src"), &b("//a")), b("/src/a"));
    assert_eq!(real_path(&b(""), &b("/a")), b("a"));
    assert_eq!(real_path(&b("rel/dir"), &b("/a/b")), b("rel/dir/a/b"));
}

#[test]
fn join_follows_the_rules_of_paths() {
    assert_eq!(join(&b("/media"), &b("clip.wav")), b("/media/clip.wav"));
    assert_eq!(join(&b("/"), &b("clip.wav")), b("/clip.wav"));
    assert_eq!(join(&b("/media"), &b("/abs")), b("/abs"));
    assert_eq!(join(&b(""), &b("x")), b("x"));
    assert_eq!(join(&b("/media"), &b("")), b("/media/"));
}

#[test]
fn absolute_means_leading_separator() {
    assert!(absolute(&b("/")));
    assert!(absolute(&b("/a")));
    assert!(!absolute(&b("a/b")));
    assert!(!absolute(&b("")));
}

#[test]
fn rfind_gives_the_last_index() {
    assert_eq!(rfind(&b("a.b.c"), b'.'), Some(3));
    assert_eq!(rfind(&b(".abc"), b'.'), Some(0));
    assert_eq!(rfind(&b("abc"), b'.'), None);
    assert_eq!(rfind(&b(""), b'.'), None);
}

#[test]
fn base_name_is_the_last_component() {
    assert_eq!(base_name(&b("/cache/media/clip.ogg")), b("clip.ogg"));
    assert_eq!(base_name(&b("clip.ogg")), b("clip.ogg"));
    assert_eq!(base_name(&b("/cache/media/")), b(""));
    assert_eq!(name_offset(&b("/cache/media/clip.ogg")), 13);
    assert_eq!(name_offset(&b("clip")), 0);
}

#[test]
fn parent_dir_is_what_holds_the_name() {
    assert_eq!(parent_dir(&b("/cache/media/clip.ogg")), b("/cache/media"));
    assert_eq!(parent_dir(&b("/clip.ogg")), b("/"));
    assert_eq!(parent_dir(&b("clip.ogg")), b(""));
    assert_eq!(parent_dir(&b("a//b")), b("a"));
    assert_eq!(parent_dir(&b("//b")), b("/"));
}

#[test]
fn set_extension_replaces_the_extension() {
    assert_eq!(set_extension(&b("song.wav"), &b("ogg")), b("song.ogg"));
    assert_eq!(set_extension(&b("/media/clip.wav"), &b("ogg")), b("/media/clip.ogg"));
    assert_eq!(set_extension(&b("/media/archive.tar.gz"), &b("ogg")), b("/media/archive.tar.ogg"));
}

#[test]
fn set_extension_adds_one_where_there_is_none() {
    assert_eq!(set_extension(&b("song"), &b("ogg")), b("song.ogg"));
    assert_eq!(set_extension(&b("/a.b/song"), &b("ogg")), b("/a.b/song.ogg"));
    assert_eq!(set_extension(&b(".hidden"), &b("ogg")), b(".hidden.ogg"));
    assert_eq!(set_extension(&b("song."), &b("ogg")), b("song.ogg"));
}

#[test]
fn set_extension_with_nothing_drops_it() {
    assert_eq!(set_extension(&b("song.wav"), &b("")), b("song"));
    assert_eq!(set_extension(&b("song"), &b("")), b("song"));
}

#[test]
fn set_extension_leaves_what_names_no_file() {
    assert_eq!(set_extension(&b("/media/"), &b("ogg")), b("/media/"));
    assert_eq!(set_extension(&b(""), &b("ogg")), b(""));
    assert_eq!(set_extension(&b("/media/.."), &b("ogg")), b("/media/.."));
    assert_eq!(set_extension(&b("."), &b("ogg")), b("."));
}

#[test]
fn set_extension_agrees_with_the_standard_library() {
    for name in ["song.wav", "/m/clip.wav", "song", ".hidden", "a.b.c", "/a.b/c", "x.", "/media/.."] {
        for ext in ["ogg", "", "tar.gz"] {
            let mut expected = std::path::PathBuf::from(name);
            expected.set_extension(ext);
            assert_eq!(
                set_extension(&b(name), &b(ext)),
                b(expected.to_str().unwrap()),
                "{name} with {ext}"
            );
        }
    }
}

#[test]
fn real_path_agrees_with_the_standard_library() {
    for root in ["/src", "/src/", "/", "rel"] {
        for partial in ["/a", "/a/b.wav", "/", "/media/clip.ogg"] {
            let expected = std::path::PathBuf::from(root)
                .join(std::path::Path::new(partial).strip_prefix("/").unwrap());
            assert_eq!(
                real_path(&b(root), &b(partial)),
                b(expected.to_str().unwrap()),
                "{partial} under {root}"
            );
        }
    }
}
