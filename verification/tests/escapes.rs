use tk_blog_publish::escapes::normalize_escapes;

#[test]
fn double_backslash_before_newline_becomes_triple() {
    assert_eq!(normalize_escapes("a\\\\\n"), "a \\\\\\\n");
}

#[test]
fn every_site_of_a_text_is_rewritten() {
    let text = "x &= 1\\\\\ny &= 2\\\\\nz";
    assert_eq!(normalize_escapes(text), "x &= 1 \\\\\\\ny &= 2 \\\\\\\nz");
}

#[test]
fn triple_backslash_form_is_left_unchanged() {
    let once = normalize_escapes("a\\\\\nb");
    assert_eq!(once, "a \\\\\\\nb");
    let twice = normalize_escapes(&once);
    assert_eq!(twice, once);
    assert_eq!(normalize_escapes(&twice), once);
}

#[test]
fn run_of_three_or_more_backslashes_is_no_site() {
    assert_eq!(normalize_escapes("a\\\\\\\n"), "a\\\\\\\n");
    assert_eq!(normalize_escapes("a\\\\\\\\\n"), "a\\\\\\\\\n");
    assert_eq!(normalize_escapes("a\\\\\\\\\\\n"), "a\\\\\\\\\\\n");
}

#[test]
fn double_backslash_needs_a_character_before_it() {
    assert_eq!(normalize_escapes("\\\\\n"), "\\\\\n");
}

#[test]
fn double_backslash_needs_the_newline_right_behind_it() {
    assert_eq!(normalize_escapes("a\\\\ \n"), "a\\\\ \n");
    assert_eq!(normalize_escapes("a\\\\"), "a\\\\");
    assert_eq!(normalize_escapes("a\\\\b\n"), "a\\\\b\n");
    assert_eq!(normalize_escapes("a\\\\\r\n"), "a\\\\\r\n");
}

#[test]
fn single_backslash_is_no_site() {
    assert_eq!(normalize_escapes("a\\\n"), "a\\\n");
}

#[test]
fn newline_counts_as_the_character_before() {
    assert_eq!(normalize_escapes("\n\\\\\n"), "\n \\\\\\\n");
}

#[test]
fn text_without_site_is_unchanged() {
    let text = "# Title\n\nplain text, a \\ here and a \\\\ there\n";
    assert_eq!(normalize_escapes(text), text);
    assert_eq!(normalize_escapes(""), "");
}

#[test]
fn overlapping_site_waits_for_the_second_pass() {
    let text = "a\\\\\n\\\\\nb";
    let once = normalize_escapes(text);
    assert_eq!(once, "a \\\\\\\n\\\\\nb");
    let twice = normalize_escapes(&once);
    assert_eq!(twice, "a \\\\\\\n \\\\\\\nb");
    assert_eq!(normalize_escapes(&twice), twice);
}

#[test]
fn characters_beyond_ascii_pass_through() {
    assert_eq!(normalize_escapes("é\\\\\nü"), "é \\\\\\\nü");
    assert_eq!(normalize_escapes("数式\\\\\n"), "数式 \\\\\\\n");
}

#[test]
fn normalization_is_deterministic() {
    let text = "a\\\\\nb\\\\\n";
    assert_eq!(normalize_escapes(text), normalize_escapes(text));
}
