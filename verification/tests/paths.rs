use colorfs::path::{classify, PathClass};

#[test]
fn root_has_no_segment() {
    assert_eq!(classify("/"), PathClass::Root);
    assert_eq!(classify("//"), PathClass::Root);
    assert_eq!(classify("///"), PathClass::Root);
}

#[test]
fn one_segment_is_a_candidate_file() {
    assert_eq!(classify("/ff0080.png"), PathClass::CandidateFile("ff0080.png"));
    assert_eq!(classify("/a"), PathClass::CandidateFile("a"));
    assert_eq!(classify("/zz0080.png"), PathClass::CandidateFile("zz0080.png"));
}

#[test]
fn empty_segments_do_not_count() {
    assert_eq!(classify("//a"), PathClass::CandidateFile("a"));
    assert_eq!(classify("/a/"), PathClass::CandidateFile("a"));
    assert_eq!(classify("///abc///"), PathClass::CandidateFile("abc"));
}

#[test]
fn names_may_hold_any_character_but_the_separator() {
    assert_eq!(classify("/h\u{e9}llo w\u{f6}rld"), PathClass::CandidateFile("h\u{e9}llo w\u{f6}rld"));
    assert_eq!(classify("/\u{1f3a8}/"), PathClass::CandidateFile("\u{1f3a8}"));
}

#[test]
fn deeper_paths_are_invalid() {
    assert_eq!(classify("/a/b.png"), PathClass::Invalid);
    assert_eq!(classify("/a/b/c"), PathClass::Invalid);
    assert_eq!(classify("/ff0080.png/ff0080.png"), PathClass::Invalid);
    assert_eq!(classify("//a//b//"), PathClass::Invalid);
}

#[test]
fn relative_and_empty_paths_are_invalid() {
    assert_eq!(classify(""), PathClass::Invalid);
    assert_eq!(classify("a"), PathClass::Invalid);
    assert_eq!(classify("ff0080.png"), PathClass::Invalid);
    assert_eq!(classify("a/"), PathClass::Invalid);
    assert_eq!(classify("a/b"), PathClass::Invalid);
}
