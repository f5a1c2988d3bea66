use pepper::buffer_position::BufferPosition;
use pepper::cursor::{Cursor, CursorCollection};

#[test]
fn merge_cursor() {
    let mut cursors = CursorCollection::new();
    assert_eq!(1, cursors.cursors().len());
    cursors.add_cursor(*cursors.main_cursor());
    let mut cursors = cursors.cursors().iter();
    let cursor = cursors.next().unwrap();
    assert_eq!(BufferPosition::line_col(0, 0), cursor.position);
    assert_eq!(BufferPosition::line_col(0, 0), cursor.anchor);
    assert!(cursors.next().is_none());

    let mut cursors = CursorCollection::new();
    let mut cursors_mut = cursors.cursors().to_vec();
    cursors_mut[0].anchor = BufferPosition::line_col(2, 3);
    cursors_mut[0].position = cursors_mut[0].anchor;
    cursors.change_all(cursors_mut);
    assert_eq!(1, cursors.cursors().len());
    cursors.add_cursor(Cursor {
        anchor: BufferPosition::line_col(2, 2),
        position: BufferPosition::line_col(2, 4),
    });
    let mut cursors = cursors.cursors().iter();
    let cursor = cursors.next().unwrap();
    assert_eq!(BufferPosition::line_col(2, 2), cursor.anchor);
    assert_eq!(BufferPosition::line_col(2, 4), cursor.position);
    assert!(cursors.next().is_none());

    let mut cursors = CursorCollection::new();
    let mut cursors_mut = cursors.cursors().to_vec();
    cursors_mut[0].anchor = BufferPosition::line_col(2, 2);
    cursors_mut[0].position = BufferPosition::line_col(2, 4);
    cursors.change_all(cursors_mut);
    cursors.add_cursor(Cursor {
        anchor: BufferPosition::line_col(2, 2),
        position: BufferPosition::line_col(2, 2),
    });
    let mut cursors = cursors.cursors().iter();
    let cursor = cursors.next().unwrap();
    assert_eq!(BufferPosition::line_col(2, 2), cursor.anchor);
    assert_eq!(BufferPosition::line_col(2, 4), cursor.position);
    assert!(cursors.next().is_none());

    let mut cursors = CursorCollection::new();
    let mut cursors_mut = cursors.cursors().to_vec();
    cursors_mut[0].anchor = BufferPosition::line_col(2, 2);
    cursors_mut[0].position = BufferPosition::line_col(2, 3);
    cursors.change_all(cursors_mut);
    cursors.add_cursor(Cursor {
        anchor: BufferPosition::line_col(2, 4),
        position: BufferPosition::line_col(2, 3),
    });
    let mut cursors = cursors.cursors().iter();
    let cursor = cursors.next().unwrap();
    assert_eq!(BufferPosition::line_col(2, 2), cursor.anchor);
    assert_eq!(BufferPosition::line_col(2, 4), cursor.position);
    assert!(cursors.next().is_none());

    let mut cursors = CursorCollection::new();
    let mut cursors_mut = cursors.cursors().to_vec();
    cursors_mut[0].anchor = BufferPosition::line_col(2, 4);
    cursors_mut[0].position = BufferPosition::line_col(2, 3);
    cursors.change_all(cursors_mut);
    cursors.add_cursor(Cursor {
        anchor: BufferPosition::line_col(2, 3),
        position: BufferPosition::line_col(2, 2),
    });
    let mut cursors = cursors.cursors().iter();
    let cursor = cursors.next().unwrap();
    assert_eq!(BufferPosition::line_col(2, 4), cursor.anchor);
    assert_eq!(BufferPosition::line_col(2, 2), cursor.position);
    assert!(cursors.next().is_none());
}

#[test]
fn no_merge_cursor() {
    let mut cursors = CursorCollection::new();
    let mut cursors_mut = cursors.cursors().to_vec();
    cursors_mut[0].anchor = BufferPosition::line_col(1, 0);
    cursors_mut[0].position = BufferPosition::line_col(1, 0);
    cursors.change_all(cursors_mut);
    cursors.add_cursor(Cursor {
        anchor: BufferPosition::line_col(2, 0),
        position: BufferPosition::line_col(2, 0),
    });
    let mut cursors = cursors.cursors().iter();
    let cursor = cursors.next().unwrap();
    assert_eq!(BufferPosition::line_col(1, 0), cursor.anchor);
    assert_eq!(BufferPosition::line_col(1, 0), cursor.position);
    let cursor = cursors.next().unwrap();
    assert_eq!(BufferPosition::line_col(2, 0), cursor.anchor);
    assert_eq!(BufferPosition::line_col(2, 0), cursor.position);
    assert!(cursors.next().is_none());

    let mut cursors = CursorCollection::new();
    let mut cursors_mut = cursors.cursors().to_vec();
    cursors_mut[0].anchor = BufferPosition::line_col(3, 2);
    cursors_mut[0].position = BufferPosition::line_col(3, 2);
    cursors.change_all(cursors_mut);
    cursors.add_cursor(Cursor {
        anchor: BufferPosition::line_col(2, 2),
        position: BufferPosition::line_col(2, 2),
    });
    let mut cursors = cursors.cursors().iter();
    let cursor = cursors.next().unwrap();
    assert_eq!(BufferPosition::line_col(2, 2), cursor.anchor);
    assert_eq!(BufferPosition::line_col(2, 2), cursor.position);
    let cursor = cursors.next().unwrap();
    assert_eq!(BufferPosition::line_col(3, 2), cursor.anchor);
    assert_eq!(BufferPosition::line_col(3, 2), cursor.position);
    assert!(cursors.next().is_none());
}

#[test]
fn move_and_merge_cursors() {
    let mut cursors = CursorCollection::new();
    let mut cursors_mut = cursors.cursors().to_vec();
    cursors_mut[0].anchor = BufferPosition::line_col(0, 0);
    cursors_mut[0].position = BufferPosition::line_col(0, 0);
    cursors.change_all(cursors_mut);
    cursors.add_cursor(Cursor {
        anchor: BufferPosition::line_col(1, 0),
        position: BufferPosition::line_col(1, 0),
    });
    cursors.add_cursor(Cursor {
        anchor: BufferPosition::line_col(2, 0),
        position: BufferPosition::line_col(2, 0),
    });
    assert_eq!(3, cursors.cursors().len());
    let mut cursors_mut = cursors.cursors().to_vec();
    for c in &mut cursors_mut[..] {
        if c.position.line_index > 0 {
            c.position.line_index -= 1;
        }
        c.anchor = c.position;
    }
    cursors.change_all(cursors_mut);
    let cursor = cursors.main_cursor();
    assert_eq!(BufferPosition::line_col(1, 0), cursor.anchor);
    assert_eq!(BufferPosition::line_col(1, 0), cursor.position);
    let mut cursors = cursors.cursors().iter();
    let cursor = cursors.next().unwrap();
    assert_eq!(BufferPosition::line_col(0, 0), cursor.anchor);
    assert_eq!(BufferPosition::line_col(0, 0), cursor.position);
    let cursor = cursors.next().unwrap();
    assert_eq!(BufferPosition::line_col(1, 0), cursor.anchor);
    assert_eq!(BufferPosition::line_col(1, 0), cursor.position);
    assert!(cursors.next().is_none());
}

#[test]
fn collapse_and_swap() {
    let mut cursors = CursorCollection::new();
    cursors.change_all(vec![Cursor {
        anchor: BufferPosition::line_col(0, 1),
        position: BufferPosition::line_col(0, 5),
    }]);
    cursors.swap_positions_and_anchors();
    assert_eq!(BufferPosition::line_col(0, 5), cursors.main_cursor().anchor);
    assert_eq!(BufferPosition::line_col(0, 1), cursors.main_cursor().position);
    cursors.collapse_anchors();
    assert_eq!(BufferPosition::line_col(0, 1), cursors.main_cursor().anchor);
}

#[test]
fn chained_overlaps_merge_into_one() {
    let mut cursors = CursorCollection::new();
    let c = |from: u32, to: u32| Cursor {
        anchor: BufferPosition::line_col(0, from),
        position: BufferPosition::line_col(0, to),
    };
    cursors.change_all(vec![c(0, 5), c(1, 10), c(8, 9)]);
    assert_eq!(1, cursors.cursors().len());
    assert_eq!(c(0, 10), cursors.cursors()[0]);
}
