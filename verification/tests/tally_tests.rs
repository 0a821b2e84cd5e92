use linetally::tally::{tally_lines, FileLines, Tally};

fn share(ext: &str, lines: u64) -> FileLines {
    FileLines { ext: ext.to_string(), lines }
}

#[test]
fn an_empty_list_gives_an_empty_tally() {
    let tally = tally_lines(&vec![]);
    assert!(tally.is_empty());
    assert_eq!(tally.len(), 0);
    assert_eq!(tally.get(".py"), None);
    assert!(Tally::new().is_empty());
}

#[test]
fn shares_of_one_extension_add_up() {
    let tally = tally_lines(&vec![share(".py", 10), share(".rs", 7), share(".py", 20)]);
    assert_eq!(tally.len(), 2);
    assert!(!tally.is_empty());
    assert_eq!(tally.get(".py"), Some(30));
    assert_eq!(tally.get(".rs"), Some(7));
    assert_eq!(tally.get("py"), None);
    assert_eq!(tally.get("."), None);
}

#[test]
fn extensions_keep_the_order_in_which_they_came() {
    let tally = tally_lines(&vec![share(".b", 1), share(".a", 2), share(".b", 3), share(".", 4)]);
    let seen: Vec<(String, u128)> =
        tally.entries().iter().map(|e| (e.ext.clone(), e.lines)).collect();
    assert_eq!(
        seen,
        vec![(".b".to_string(), 4), (".a".to_string(), 2), (".".to_string(), 4)]
    );
}

#[test]
fn an_extension_with_no_lines_at_all_is_left_out() {
    let tally = tally_lines(&vec![share(".empty", 0), share(".py", 3), share(".empty", 0)]);
    assert_eq!(tally.get(".empty"), None);
    assert_eq!(tally.len(), 1);
    assert_eq!(tally.get(".py"), Some(3));
    assert!(tally_lines(&vec![share(".empty", 0)]).is_empty());
}

#[test]
fn an_empty_share_leaves_a_running_total_as_it_is() {
    let tally = tally_lines(&vec![share(".py", 0), share(".py", 5), share(".py", 0)]);
    assert_eq!(tally.get(".py"), Some(5));
    assert_eq!(tally.len(), 1);
}

#[test]
fn totals_go_beyond_sixty_four_bits() {
    let tally = tally_lines(&vec![share(".x", u64::MAX), share(".x", u64::MAX), share(".x", 2)]);
    assert_eq!(tally.get(".x"), Some(2 * (u64::MAX as u128) + 2));
}
