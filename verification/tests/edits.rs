use mybox::desk::group_is_used;
use mybox::desk::note_snapshot;
use mybox::desk::Desk;
use mybox::desk::Placement;
use mybox::edits::dragged_group_origins;
use mybox::edits::dragged_note_origins;
use mybox::model::Coordinate;
use mybox::model::Group;
use mybox::model::Note;
use mybox::model::NoteColor;
use mybox::model::NoteStatus;
use mybox::persist::group_content_changed;
use mybox::persist::note_content_changed;

fn at(value: f64) -> Coordinate {
    Coordinate { bits: value.to_bits() }
}

fn note(id: u64, group_id: Option<u64>) -> Note {
    Note {
        id,
        stable_id: format!("n{id}"),
        text: String::new(),
        color: NoteColor::Yellow,
        status: NoteStatus::Todo,
        due_date: None,
        x: at(id as f64),
        y: at(0.0),
        rotation: 0,
        group_id,
        group_stable_id: None,
        created_at: 0,
        updated_at: 0,
        deleted_at: None,
    }
}

fn group(id: u64) -> Group {
    Group {
        id,
        stable_id: format!("g{id}"),
        label: "work".to_owned(),
        origin: None,
        size: None,
        created_at: 0,
        updated_at: 0,
        deleted_at: None,
    }
}

fn desk() -> Desk {
    Desk::new(1, vec![note(1, Some(7)), note(2, None), note(3, None)], vec![group(7)])
}

#[test]
fn notes_change_one_field_at_a_time() {
    let mut desk = desk();
    desk.cycle_color(1, NoteColor::Pink);
    assert_eq!(desk.notes[0].color, NoteColor::Pink);
    assert_eq!(desk.notes[1].color, NoteColor::Yellow);
    desk.set_note_due_date(1, Some("2024-02-29".to_owned()));
    desk.clear_due_date(1);
    assert_eq!(desk.notes[0].due_date, None);
    assert_eq!(desk.history.undo.len(), 3);
    desk.cycle_color(99, NoteColor::Blue);
    assert_eq!(desk.history.undo.len(), 3);
    desk.undo();
    assert_eq!(desk.notes[0].due_date, Some("2024-02-29".to_owned()));
    assert_eq!(note_snapshot(&desk.notes, 1).map(|note| note.color), Some(NoteColor::Pink));
    assert!(note_snapshot(&desk.notes, 99).is_none());
}

#[test]
fn typing_is_undone_as_a_whole() {
    let mut desk = desk();
    desk.edit_note(2);
    assert_eq!(desk.editing, Some(2));
    assert_eq!(desk.selection, vec![2]);
    desk.set_note_text(2, "b".to_owned());
    desk.set_note_text(2, "buy milk".to_owned());
    assert!(desk.history.undo.is_empty());
    desk.commit_pending_edit();
    assert_eq!(desk.history.undo.len(), 1);
    desk.undo();
    assert_eq!(desk.notes[1].text, "");
    desk.redo();
    assert_eq!(desk.notes[1].text, "buy milk");
}

#[test]
fn labels_are_edited() {
    let mut desk = desk();
    desk.rename_group(99);
    assert_eq!(desk.group_editing, None);
    desk.rename_group(7);
    assert_eq!(desk.group_editing, Some(7));
    desk.set_group_label(7, "home".to_owned());
    desk.start_group_edit(7);
    desk.commit_pending_group_edit();
    assert_eq!(desk.group_editing, None);
    assert_eq!(desk.history.undo.len(), 1);
    assert_eq!(desk.groups[0].label, "home");
    desk.undo();
    assert_eq!(desk.groups[0].label, "work");
}

#[test]
fn groups_gain_and_lose_notes() {
    let mut desk = desk();
    desk.selection = vec![2, 3];
    desk.add_selection_to_group(99, &Vec::new());
    assert_eq!(desk.notes[1].group_id, None);
    desk.add_selection_to_group(7, &vec![Placement { id: 3, x: at(30.0), y: at(40.0) }]);
    assert_eq!(desk.notes[1].group_id, Some(7));
    assert_eq!(desk.notes[2].group_id, Some(7));
    assert_eq!(desk.notes[2].x, at(30.0));
    assert_eq!(desk.notes[1].x, at(2.0));
    assert!(group_is_used(&desk.notes, 7));
    desk.ungroup_group(7);
    assert!(!group_is_used(&desk.notes, 7));
    assert!(desk.groups.is_empty());
    assert_eq!(desk.notes.len(), 3);
    desk.undo();
    assert_eq!(desk.groups.len(), 1);
    assert_eq!(desk.notes[2].group_id, Some(7));
}

#[test]
fn selections_follow_the_mouse() {
    let mut desk = desk();
    desk.toggle_selection(1);
    desk.toggle_selection(3);
    assert_eq!(desk.selection, vec![1, 3]);
    desk.select_for_menu(3);
    assert_eq!(desk.selection, vec![1, 3]);
    desk.toggle_selection(1);
    assert_eq!(desk.selection, vec![3]);
    desk.select_for_menu(2);
    assert_eq!(desk.selection, vec![2]);
    desk.remove_note(2);
    assert_eq!(desk.notes.len(), 2);
    assert_eq!(desk.selection, vec![2]);
}

#[test]
fn frames_keep_their_size_while_they_move() {
    let mut desk = desk();
    desk.set_group_frame(7, (at(1.0), at(2.0)), Some((at(300.0), at(200.0))));
    desk.set_group_frame(7, (at(5.0), at(6.0)), None);
    assert_eq!(desk.groups[0].origin, Some((at(5.0), at(6.0))));
    assert_eq!(desk.groups[0].size, Some((at(300.0), at(200.0))));
    assert!(desk.history.undo.is_empty());
}

#[test]
fn drags_start_where_the_notes_were() {
    let mut desk = desk();
    let (before, moved) = desk.start_drag(2);
    desk.place_notes(&vec![Placement { id: 2, x: at(50.0), y: at(60.0) }]);
    assert_eq!(
        dragged_note_origins(&desk.notes, &before, &moved),
        vec![Placement { id: 2, x: at(2.0), y: at(0.0) }]
    );
    assert_eq!(
        dragged_group_origins(&desk.notes, &before, 7),
        vec![Placement { id: 1, x: at(1.0), y: at(0.0) }]
    );
    desk.record_snapshot(before);
    desk.undo();
    assert_eq!(desk.notes[1].x, at(2.0));
}

#[test]
fn times_are_no_content() {
    let later = Note { updated_at: 9, ..note(1, None) };
    assert!(!note_content_changed(&note(1, None), &later));
    assert!(note_content_changed(&note(1, None), &note(1, Some(7))));
    let zero = Note { y: at(-0.0), ..note(1, None) };
    assert!(!note_content_changed(&note(1, None), &zero));
    let unplaced = Note { y: at(f64::NAN), ..note(1, None) };
    assert!(note_content_changed(&unplaced, &Note { y: at(f64::NAN), ..note(1, None) }));
    let moved = Group { origin: Some((at(1.0), at(2.0))), ..group(7) };
    assert!(group_content_changed(&group(7), &moved));
    assert!(!group_content_changed(&group(7), &Group { updated_at: 9, ..group(7) }));
}
