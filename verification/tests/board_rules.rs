use ox_squared_server::board::{board_is_full, check_winner, sub_board_done};

fn cells(s: &str) -> Vec<Option<char>> {
    s.chars().map(|c| if c == '.' { None } else { Some(c) }).collect()
}

#[test]
fn winner_by_row() {
    assert_eq!(check_winner(&cells("xxx.o.o..")), Some('x'));
    assert_eq!(check_winner(&cells("o..ooox.x")), Some('o'));
    assert_eq!(check_winner(&cells("x.xo.oxxx")), Some('x'));
}

#[test]
fn winner_by_column_and_diagonal() {
    assert_eq!(check_winner(&cells("o..o..o..")), Some('o'));
    assert_eq!(check_winner(&cells(".x..x..x.")), Some('x'));
    assert_eq!(check_winner(&cells("x...x...x")), Some('x'));
    assert_eq!(check_winner(&cells("..o.o.o..")), Some('o'));
}

#[test]
fn first_line_in_scan_order_decides() {
    // Row 0 is complete for 'x' and column 1 for 'o'... impossible together, but
    // column 0 ('o') comes before row 1 ('x') in the scan order.
    assert_eq!(check_winner(&cells("oxxoxxo..")), Some('o'));
    // Row 1 ('x') comes before column 1 only if column 0 is not complete.
    assert_eq!(check_winner(&cells("o.oxxxo.o")), Some('x'));
}

#[test]
fn no_winner() {
    assert_eq!(check_winner(&cells(".........")), None);
    assert_eq!(check_winner(&cells("xoxxoooxx")), None);
    assert_eq!(check_winner(&cells("xx.oo....")), None);
}

#[test]
fn done_when_won_or_full() {
    assert!(sub_board_done(&cells("xxx......")));
    assert!(sub_board_done(&cells("xoxxoooxx")));
    assert!(!sub_board_done(&cells("xoxxooox.")));
    assert!(!sub_board_done(&cells(".........")));
}

#[test]
fn full_board() {
    let full: Vec<Vec<Option<char>>> = vec![cells("xoxxoooxx"); 9];
    assert!(board_is_full(&full));
    let mut nearly = full.clone();
    nearly[8][8] = None;
    assert!(!board_is_full(&nearly));
    assert!(board_is_full(&[]));
}
