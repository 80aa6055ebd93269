use skills_hub::descriptor::{parse_skill_md, parse_skill_md_with_reason, DescriptorError};

#[test]
fn valid_descriptor_gives_name_and_description() {
    let r = parse_skill_md_with_reason("---\nname: foo\ndescription: \"does things\"\n---\nbody\n");
    assert_eq!(r, Ok(("foo".to_string(), Some("does things".to_string()))));
    let crlf = parse_skill_md_with_reason("---\r\nname:  bar \r\n---\r\n");
    assert_eq!(crlf, Ok(("bar".to_string(), None)));
    assert_eq!(parse_skill_md("---\nname: x\n---"), Some(("x".to_string(), None)));
}

#[test]
fn missing_closing_marker_is_invalid_frontmatter() {
    assert_eq!(parse_skill_md_with_reason("---\nname: foo\n"), Err(DescriptorError::InvalidFrontmatter));
    assert_eq!(parse_skill_md_with_reason("---"), Err(DescriptorError::InvalidFrontmatter));
    assert_eq!(parse_skill_md("---\nname: foo"), None);
}

#[test]
fn missing_opening_marker_is_invalid_frontmatter() {
    assert_eq!(parse_skill_md_with_reason("name: foo\n---\n"), Err(DescriptorError::InvalidFrontmatter));
    assert_eq!(parse_skill_md_with_reason(""), Err(DescriptorError::InvalidFrontmatter));
}

#[test]
fn both_markers_without_name_is_missing_name() {
    assert_eq!(parse_skill_md_with_reason("---\ndescription: d\n---\nname: late\n"), Err(DescriptorError::MissingName));
    assert_eq!(parse_skill_md_with_reason("---\n---\n"), Err(DescriptorError::MissingName));
}

#[test]
fn later_fields_win_and_quotes_are_trimmed() {
    let r = parse_skill_md_with_reason("  ---  \nname: a\nname: \"\"b\"\"\n---\n");
    assert_eq!(r, Ok(("b".to_string(), None)));
}

#[test]
fn reason_codes() {
    assert_eq!(DescriptorError::ReadFailed.reason(), "read_failed");
    assert_eq!(DescriptorError::InvalidFrontmatter.reason(), "invalid_frontmatter");
    assert_eq!(DescriptorError::MissingName.reason(), "missing_name");
}
