use fullstack_server::bytes::{bytes_eq_ignore_case, contains_bytes, text_html_bytes, to_ascii_lowercase, visible_text};

#[test]
fn lowercase_changes_ascii_letters_only() {
    assert_eq!(to_ascii_lowercase(&b"Text/HTML; Q=0.9 \xC3\x89".to_vec()), b"text/html; q=0.9 \xC3\x89".to_vec());
    assert!(to_ascii_lowercase(&Vec::new()).is_empty());
}

#[test]
fn substring_search_edges() {
    let hay = b"application/xhtml+xml,text/html".to_vec();
    assert!(contains_bytes(&hay, &text_html_bytes()));
    assert!(!contains_bytes(&b"text/htm".to_vec(), &text_html_bytes()));
    assert!(contains_bytes(&hay, &Vec::new()));
    assert!(contains_bytes(&Vec::new(), &Vec::new()));
    assert!(!contains_bytes(&Vec::new(), &b"a".to_vec()));
    assert!(contains_bytes(&b"text/html".to_vec(), &text_html_bytes()));
}

#[test]
fn case_insensitive_equality() {
    assert!(bytes_eq_ignore_case(&b"Referer".to_vec(), &b"REFERER".to_vec()));
    assert!(!bytes_eq_ignore_case(&b"Referer".to_vec(), &b"Referrer".to_vec()));
}

#[test]
fn visible_text_allows_tab_and_refuses_controls() {
    assert!(visible_text(&b"text/html,\tq=1 ~".to_vec()));
    assert!(!visible_text(&b"text\x7f".to_vec()));
    assert!(!visible_text(&b"a\nb".to_vec()));
}
