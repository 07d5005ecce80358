use poke::app::TableState;
use ratatui::widgets::TableState as RatatuiTableState;

fn same(ours: &TableState, theirs: &RatatuiTableState) {
    assert_eq!(ours.selected(), theirs.selected());
    assert_eq!(ours.offset, theirs.offset());
}

#[test]
fn selection_moves_like_ratatui() {
    let starts = [None, Some(0), Some(1), Some(5), Some(usize::MAX)];
    for start in starts {
        for op in 0..5 {
            let mut ours = TableState::new().with_selected(start);
            ours.offset = 3;
            let mut theirs = RatatuiTableState::new().with_offset(3).with_selected(start);
            match op {
                0 => {
                    ours.select_next();
                    theirs.select_next();
                },
                1 => {
                    ours.select_previous();
                    theirs.select_previous();
                },
                2 => {
                    ours.select_first();
                    theirs.select_first();
                },
                3 => {
                    ours.select(None);
                    theirs.select(None);
                },
                _ => {
                    ours.select(Some(2));
                    theirs.select(Some(2));
                },
            }
            same(&ours, &theirs);
        }
    }
}

#[test]
fn new_state_is_like_ratatuis_default() {
    same(&TableState::new(), &RatatuiTableState::default());
    same(&TableState::new().with_selected(Some(0)), &RatatuiTableState::default().with_selected(0));
}
