use samvival::compound::{ListWidget, Orientation};
use samvival::gui::GUI;
use samvival::widgets::{Alignment, Positioning, Sizing, Wid, Widget, WidgetCallbackRef, WidgetType};

fn list(gui: &mut GUI) -> ListWidget<u32> {
    let body = Widget::new(WidgetType::window()).apply(gui);
    let mut row = Widget::new(WidgetType::window());
    row.size = [Sizing::PcntOfParent, Sizing::SurroundChildren];
    ListWidget {
        body,
        item_archetype: row,
        child_structs: Vec::new(),
        children: Vec::new(),
        children_to_remove: Vec::new(),
        orientation: Orientation::Vertical,
    }
}

#[test]
fn rows_stack_below_each_other() {
    let mut gui = GUI::new();
    let mut l = list(&mut gui);
    l.add_row(&mut gui, 7, 10);
    l.add_row(&mut gui, 8, 20);
    assert_eq!(l.children.len(), 2);
    assert_eq!(l.child_structs, vec![10, 20]);
    let first = &l.children[0];
    let second = &l.children[1];
    assert_eq!(first.parent_id, Some(l.body.id()));
    assert_eq!(first.position[1], Positioning::Constant);
    assert_eq!(second.position[1], Positioning::DeltaOfWidget(first.id(), Alignment::Bottom));
    assert_eq!(first.callbacks.last(), Some(&WidgetCallbackRef::new(7, false)));
    assert_eq!(second.callbacks.last(), Some(&WidgetCallbackRef::new(8, false)));
    assert_ne!(first.id(), Wid(0));
    assert_ne!(first.id(), second.id());
    assert!(gui.contains(second.id()));
    assert_eq!(gui.widget(second.id()).parent_id, Some(l.body.id()));
}

#[test]
fn horizontal_rows_go_right() {
    let mut gui = GUI::new();
    let mut l = list(&mut gui).horizontal();
    assert_eq!(l.orientation, Orientation::Horizontal);
    assert_eq!(l.item_archetype.size, [Sizing::SurroundChildren, Sizing::PcntOfParent]);
    l.add_row(&mut gui, 1, 0);
    l.add_row(&mut gui, 1, 0);
    assert_eq!(l.children[0].position[0], Positioning::Constant);
    assert_eq!(l.children[1].position[0], Positioning::DeltaOfWidget(l.children[0].id(), Alignment::Right));
    let l = l.vertical();
    assert_eq!(l.orientation, Orientation::Vertical);
}

#[test]
fn dropped_rows_leave_the_tree_on_reapply() {
    let mut gui = GUI::new();
    let mut l = list(&mut gui);
    l.add_row(&mut gui, 1, 1);
    l.add_row(&mut gui, 2, 2);
    let gone = l.children[1].id();
    l.drop_last_row();
    assert_eq!(l.children.len(), 1);
    assert_eq!(l.child_structs, vec![1]);
    assert_eq!(l.children_to_remove.len(), 1);
    // still registered until the list reapplies its rows
    assert!(gui.contains(gone));
    l.reapply_children(&mut gui);
    assert!(!gui.contains(gone));
    assert!(l.children_to_remove.is_empty());
    assert!(gui.contains(l.children[0].id()));
}

#[test]
fn list_under_a_parent() {
    let mut gui = GUI::new();
    let top = Widget::new(WidgetType::window()).apply(&mut gui);
    let l = list(&mut gui).parent(&top);
    assert_eq!(l.body.parent_id, Some(top.id()));
}

#[test]
fn rows_past_a_count_are_dropped_last_first() {
    let mut gui = GUI::new();
    let mut l = list(&mut gui);
    for i in 0..4u32 {
        l.add_row(&mut gui, i, i * 10);
    }
    let ids: Vec<Wid> = l.children.iter().map(|c| c.id()).collect();
    l.drop_rows_past(5);
    assert_eq!(l.children.len(), 4);
    assert!(l.children_to_remove.is_empty());
    l.drop_rows_past(1);
    assert_eq!(l.children.len(), 1);
    assert_eq!(l.child_structs, vec![0]);
    let waiting: Vec<Wid> = l.children_to_remove.iter().map(|c| c.id()).collect();
    assert_eq!(waiting, vec![ids[3], ids[2], ids[1]]);
    l.reapply_children(&mut gui);
    assert!(!gui.contains(ids[2]));
    assert!(gui.contains(ids[0]));
}

#[test]
fn list_constructors() {
    let l: ListWidget<u8> = ListWidget::new();
    assert_eq!(l.orientation, Orientation::Vertical);
    assert!(l.children.is_empty() && l.child_structs.is_empty() && l.children_to_remove.is_empty());
    assert_eq!(l.body.border.width, 2);
    assert_eq!(l.item_archetype.border.width, 1);
    assert_eq!(l.item_archetype.size, [Sizing::PcntOfParent, Sizing::SurroundChildren]);
    assert_eq!(l.item_archetype.name, Some(String::from("List widget item archetype")));
    let f: ListWidget<u8> = ListWidget::featherweight();
    assert_eq!(f.body.border.width, 0);
    assert_eq!(f.body.size[1], Sizing::SurroundChildren);
    assert_eq!(f.item_archetype.border.width, 0);
    let row = Widget::new(WidgetType::window()).width(Sizing::Derived);
    let c: ListWidget<u8> = ListWidget::custom(row);
    assert_eq!(c.item_archetype.size[0], Sizing::Derived);
}

#[test]
fn next_row_is_what_add_row_adds() {
    let mut gui = GUI::new();
    let mut l = list(&mut gui);
    let planned = l.next_row(4);
    assert!(gui.can_reapply_widget(&planned));
    l.add_row(&mut gui, 4, 0);
    let mut added = l.children[0].duplicate();
    added.clear_id();
    assert!(added.same_as(&planned));
}
