//! Editing fields: typing, naming, creating, deleting, and tags with several
//! values.

use vstd::prelude::*;

use crate::lists::{chosen, insert_item, lemma_chosen_start, lemma_chosen_step, lemma_picked_start, lemma_picked_step, picked, set_item};
use crate::screen::{nothing, put, put_all};
use crate::tag_editor::model::{field_value, loud, loud_tag, not_loud, renaming, scrolled_down, valued, with_values, EditorModel};
use crate::tag_editor::state::UnifiedTagEditorState;
use crate::tag_editor::types::{copy_fields, AggregatedTagField, AggregatedValue, FieldEditState, TagField, TagFieldModel, UnifiedTagEditorModal};
use crate::text;

verus! {

/// The first line of the window, moved on so that a line below it is shown.
pub fn scroll_down(idx: usize, offset: usize, height: usize) -> (r: usize)
    ensures
        r == scrolled_down(idx, offset, height),
{
    let below: usize = if height == 0 {
        0
    } else {
        height - 1
    };
    let above: usize = if height < 2 {
        0
    } else {
        height - 2
    };
    if idx >= offset && idx - offset >= below {
        if idx < above {
            0
        } else {
            idx - above
        }
    } else {
        offset
    }
}

impl UnifiedTagEditorState {
    /// The field in hand of the file in hand.
    fn field_in_hand(&self) -> (r: Option<&TagField>)
        ensures
            r is Some <==> self@.field_in_hand() is Some,
            r is Some ==> Some(r->0.deep_view()) == self@.field_in_hand(),
    {
        if self.current_item_idx < self.tag_fields.len() && self.current_field_idx
            < self.tag_fields[self.current_item_idx].len() {
            Some(&self.tag_fields[self.current_item_idx][self.current_field_idx])
        } else {
            None
        }
    }

    /// The aggregate in hand.
    fn aggregate_in_hand(&self) -> (r: Option<&AggregatedTagField>)
        ensures
            r is Some <==> self@.aggregate_in_hand() is Some,
            r is Some ==> Some(r->0.deep_view()) == self@.aggregate_in_hand(),
    {
        match &self.aggregated_fields {
            Some(fields) => if self.current_field_idx < fields.len() {
                Some(&fields[self.current_field_idx])
            } else {
                None
            },
            None => None,
        }
    }

    /// Puts another field in place of the one in hand.
    fn set_field(&mut self, field: TagField)
        requires
            old(self)@.field_in_hand() is Some,
        ensures
            final(self)@ == old(self)@.with_field(field.deep_view()),
    {
        let mut fields: Vec<TagField> = copy_fields(&self.tag_fields[self.current_item_idx]);
        set_item(&mut fields, self.current_field_idx, field);
        set_item(&mut self.tag_fields, self.current_item_idx, fields);
    }

    /// Puts another aggregate in place of the one in hand.
    fn set_aggregate(&mut self, field: AggregatedTagField)
        requires
            old(self)@.aggregate_in_hand() is Some,
        ensures
            final(self)@ == old(self)@.with_aggregate(field.deep_view()),
    {
        if let Some(fields) = self.aggregated_fields.take() {
            let mut fields = fields;
            set_item(&mut fields, self.current_field_idx, field);
            self.aggregated_fields = Some(fields);
        }
    }

    /// Takes the field in hand into the buffers.
    pub fn load_field_buffer(&mut self)
        ensures
            final(self)@ == old(self)@.load(),
    {
        if self.is_aggregated_mode() {
            let taken: Option<(String, String)> = match self.aggregate_in_hand() {
                Some(f) => Some((f.name.clone(), f.value.typed())),
                None => None,
            };
            if let Some((name, value)) = taken {
                self.name_buffer = name;
                self.value_buffer = value;
            }
        } else {
            let taken: Option<(String, String)> = match self.field_in_hand() {
                Some(f) => Some((f.name.clone(), f.value.clone())),
                None => None,
            };
            if let Some((name, value)) = taken {
                self.name_buffer = name;
                self.value_buffer = value;
            }
        }
    }

    /// The fields of the file in hand with a new name for every value of a tag.
    fn renamed(&self, old: &str, new: &str) -> (r: Vec<TagField>)
        requires
            self@.current_item_idx < self@.tag_fields.len(),
        ensures
            r.deep_view() == self@.tag_fields[self@.current_item_idx as int].map_values(
                renaming(old@, new@),
            ),
    {
        let fields: &Vec<TagField> = &self.tag_fields[self.current_item_idx];
        let mut out: Vec<TagField> = nothing();
        let mut i: usize = 0;
        while i < fields.len()
            invariant
                i <= fields.len(),
                out.len() == i,
                forall|j: int|
                    0 <= j < i ==> (#[trigger] out[j]).deep_view() == renaming(old@, new@)(
                        fields.deep_view()[j],
                    ),
            decreases fields.len() - i,
        {
            let mut f: TagField = fields[i].clone();
            if text::same(text::to_uppercase(fields[i].name.as_str()).as_str(), old) {
                f.name = new.to_owned();
            }
            out.push(f);
            i = i + 1;
        }
        proof {
            assert(out.deep_view() =~= fields.deep_view().map_values(renaming(old@, new@)));
        }
        out
    }

    /// Takes the buffer that was typed in into the field in hand.
    pub fn commit_field_buffer(&mut self)
        ensures
            final(self)@ == old(self)@.commit(),
    {
        if self.is_aggregated_mode() {
            let taken: Option<AggregatedTagField> = match self.aggregate_in_hand() {
                Some(f) => Some(f.clone()),
                None => None,
            };
            if let Some(f) = taken {
                match self.field_edit_state {
                    FieldEditState::EditingName => {
                        let name: String = self.name_buffer.clone();
                        self.set_aggregate(
                            AggregatedTagField {
                                name,
                                value: f.value,
                                original_value: f.original_value,
                            },
                        );
                    },
                    FieldEditState::EditingValue => {
                        let value: String = self.value_buffer.clone();
                        self.set_aggregate(
                            AggregatedTagField {
                                name: f.name,
                                value: AggregatedValue::Edited(value),
                                original_value: f.original_value,
                            },
                        );
                    },
                    FieldEditState::NonEditable => {},
                }
            }
        } else {
            let taken: Option<TagField> = match self.field_in_hand() {
                Some(f) => Some(f.clone()),
                None => None,
            };
            if let Some(f) = taken {
                match self.field_edit_state {
                    FieldEditState::EditingName => {
                        let old_name: String = text::to_uppercase(f.name.as_str());
                        let fields: Vec<TagField> = self.renamed(
                            old_name.as_str(),
                            self.name_buffer.as_str(),
                        );
                        set_item(&mut self.tag_fields, self.current_item_idx, fields);
                    },
                    FieldEditState::EditingValue => {
                        let value: String = self.value_buffer.clone();
                        self.set_field(
                            TagField {
                                name: f.name,
                                value,
                                editable: f.editable,
                                deleted: f.deleted,
                            },
                        );
                    },
                    FieldEditState::NonEditable => {},
                }
            }
        }
    }

    /// Answers Enter.
    pub fn handle_field_enter(&mut self)
        ensures
            final(self)@ == old(self)@.enter(),
    {
        if self.is_aggregated_mode() {
            self.handle_aggregated_field_enter();
        } else {
            self.handle_individual_field_enter();
        }
    }

    fn handle_aggregated_field_enter(&mut self)
        requires
            old(self)@.aggregated(),
        ensures
            final(self)@ == old(self)@.enter_aggregate(),
    {
        let taken: Option<AggregatedTagField> = match self.aggregate_in_hand() {
            Some(f) => Some(f.clone()),
            None => None,
        };
        if let Some(f) = taken {
            if self.field_edit_state != FieldEditState::NonEditable {
                self.commit_field_buffer();
                self.field_edit_state = FieldEditState::NonEditable;
            } else if !self.focus_on_value {
                self.field_edit_state = FieldEditState::EditingName;
                self.load_field_buffer();
            } else if let AggregatedValue::Various = f.value {
                self.set_aggregate(
                    AggregatedTagField {
                        name: f.name,
                        value: AggregatedValue::VariousConfirming,
                        original_value: f.original_value,
                    },
                );
            } else {
                self.field_edit_state = FieldEditState::EditingValue;
                self.load_field_buffer();
            }
        }
    }

    fn handle_individual_field_enter(&mut self)
        requires
            !old(self)@.aggregated(),
        ensures
            final(self)@ == old(self)@.enter_field(),
    {
        let creates: bool = match self.field_in_hand() {
            Some(f) => text::same(f.name.as_str(), "New Tag"),
            None => {
                return;
            },
        };
        if creates {
            self.create_new_tag();
        } else if self.field_edit_state != FieldEditState::NonEditable {
            self.commit_field_buffer();
            self.field_edit_state = FieldEditState::NonEditable;
        } else if !self.focus_on_value {
            self.field_edit_state = FieldEditState::EditingName;
            self.load_field_buffer();
        } else if self.is_multi_value_field().is_some() {
            self.open_multi_value_editor();
        } else {
            self.field_edit_state = FieldEditState::EditingValue;
            self.load_field_buffer();
        }
    }

    /// Puts a new tag before the line that creates one, and starts typing its
    /// name.
    pub fn create_new_tag(&mut self)
        ensures
            final(self)@ == old(self)@.create_tag(),
    {
        if self.current_item_idx < self.tag_fields.len() {
            let mut fields: Vec<TagField> = copy_fields(&self.tag_fields[self.current_item_idx]);
            let at: usize = if fields.len() == 0 {
                0
            } else {
                fields.len() - 1
            };
            insert_item(
                &mut fields,
                at,
                TagField {
                    name: "new_tag".to_owned(),
                    value: String::new(),
                    editable: true,
                    deleted: false,
                },
            );
            set_item(&mut self.tag_fields, self.current_item_idx, fields);
            self.current_field_idx = at;
            if self.field_visible_height > 0 {
                self.field_scroll_offset = scroll_down(
                    at,
                    self.field_scroll_offset,
                    self.field_visible_height,
                );
            }
        }
        self.field_edit_state = FieldEditState::EditingName;
        self.name_buffer = "new_tag".to_owned();
        self.value_buffer.clear();
        self.focus_on_value = false;
    }

    /// Types one more character.
    pub fn insert_char(&mut self, c: char)
        ensures
            final(self)@ == old(self)@.typed(c),
    {
        match self.field_edit_state {
            FieldEditState::EditingName => {
                self.name_buffer.push(c);
            },
            FieldEditState::EditingValue => {
                self.value_buffer.push(c);
            },
            FieldEditState::NonEditable => {},
        }
    }

    /// Takes the last character back.
    pub fn delete_char(&mut self)
        ensures
            final(self)@ == old(self)@.untyped(),
    {
        match self.field_edit_state {
            FieldEditState::EditingName => {
                let _ = self.name_buffer.pop();
            },
            FieldEditState::EditingValue => {
                let _ = self.value_buffer.pop();
            },
            FieldEditState::NonEditable => {},
        }
    }

    /// Empties what is being typed, or the value in hand where nothing is.
    pub fn clear_current_field(&mut self)
        ensures
            final(self)@ == old(self)@.cleared(),
    {
        match self.field_edit_state {
            FieldEditState::EditingName => {
                self.name_buffer.clear();
            },
            FieldEditState::EditingValue => {
                self.value_buffer.clear();
            },
            FieldEditState::NonEditable => {
                let taken: Option<TagField> = match self.field_in_hand() {
                    Some(f) => Some(f.clone()),
                    None => None,
                };
                if let Some(f) = taken {
                    self.set_field(
                        TagField {
                            name: f.name,
                            value: String::new(),
                            editable: f.editable,
                            deleted: f.deleted,
                        },
                    );
                }
            },
        }
    }

    /// Switches the mark for deletion of the field in hand over.
    pub fn toggle_current_field_deleted(&mut self)
        ensures
            final(self)@ == old(self)@.mark_switched(),
    {
        let taken: Option<TagField> = match self.field_in_hand() {
            Some(f) => Some(f.clone()),
            None => None,
        };
        if let Some(f) = taken {
            if f.editable && !text::same(f.name.as_str(), "New Tag") {
                self.set_field(
                    TagField {
                        name: f.name,
                        value: f.value,
                        editable: f.editable,
                        deleted: !f.deleted,
                    },
                );
            }
        }
    }

    /// How many values the tag in hand has, where it has several.
    pub fn is_multi_value_field(&self) -> (r: Option<usize>)
        ensures
            r is Some <==> self@.several_values() is Some,
            r is Some ==> r->0 == self@.several_values()->0,
    {
        let name: String = match self.field_in_hand() {
            Some(f) => text::to_uppercase(f.name.as_str()),
            None => {
                return None;
            },
        };
        let fields: &Vec<TagField> = &self.tag_fields[self.current_item_idx];
        let ghost s = fields.deep_view();
        proof {
            lemma_chosen_start(s, loud_tag(name@));
        }
        let mut n: usize = 0;
        let mut i: usize = 0;
        while i < fields.len()
            invariant
                i <= fields.len(),
                n <= i,
                s == fields.deep_view(),
                n == chosen(s.take(i as int), loud_tag(name@)).len(),
            decreases fields.len() - i,
        {
            proof {
                lemma_chosen_step(s, i as int, loud_tag(name@));
            }
            if text::same(text::to_uppercase(fields[i].name.as_str()).as_str(), name.as_str())
                && !text::same(fields[i].name.as_str(), "New Tag") {
                n = n + 1;
            }
            i = i + 1;
        }
        proof {
            assert(s.take(s.len() as int) =~= s);
        }
        if n > 1 {
            Some(n)
        } else {
            None
        }
    }

    /// Opens the modal with all the values of the tag in hand.
    pub fn open_multi_value_editor(&mut self)
        ensures
            final(self)@ == old(self)@.open_values(),
    {
        let name: String = match self.field_in_hand() {
            Some(f) => text::to_uppercase(f.name.as_str()),
            None => {
                return;
            },
        };
        let fields: &Vec<TagField> = &self.tag_fields[self.current_item_idx];
        let ghost s = fields.deep_view();
        let mut values: Vec<String> = nothing();
        proof {
            lemma_picked_start(s, loud(name@), field_value());
        }
        let mut i: usize = 0;
        while i < fields.len()
            invariant
                i <= fields.len(),
                s == fields.deep_view(),
                values.deep_view() == picked(s.take(i as int), loud(name@), field_value()),
            decreases fields.len() - i,
        {
            proof {
                lemma_picked_step(s, i as int, loud(name@), field_value());
            }
            if text::same(text::to_uppercase(fields[i].name.as_str()).as_str(), name.as_str()) {
                put(&mut values, fields[i].value.clone());
            }
            i = i + 1;
        }
        proof {
            assert(s.take(s.len() as int) =~= s);
        }
        self.modal = Some(
            UnifiedTagEditorModal::MultiValueEditor {
                field_idx: self.current_field_idx,
                values,
                current_value_idx: 0,
                editing: false,
                edit_buffer: String::new(),
            },
        );
    }

    /// Gives the tag of a field other values.
    pub fn apply_multi_value_changes(&mut self, field_idx: usize, new_values: Vec<String>)
        ensures
            final(self)@ == old(self)@.apply_values(field_idx, new_values.deep_view()),
    {
        if self.current_item_idx < self.tag_fields.len() && field_idx
            < self.tag_fields[self.current_item_idx].len() {
            let fields: Vec<TagField> = replace_values(
                &self.tag_fields[self.current_item_idx],
                field_idx,
                new_values,
            );
            set_item(&mut self.tag_fields, self.current_item_idx, fields);
        }
    }
}

/// Fields in which the tag of one field has other values.
fn replace_values(fields: &Vec<TagField>, field_idx: usize, values: Vec<String>) -> (r: Vec<
    TagField,
>)
    requires
        field_idx < fields.len(),
    ensures
        r.deep_view() == with_values(fields.deep_view(), field_idx, values.deep_view()),
{
    let ghost s = fields.deep_view();
    let name: String = fields[field_idx].name.clone();
    let loud_name: String = text::to_uppercase(name.as_str());
    let mut rest: Vec<TagField> = nothing();
    proof {
        lemma_chosen_start(s, not_loud(loud_name@));
    }
    let mut i: usize = 0;
    while i < fields.len()
        invariant
            i <= fields.len(),
            s == fields.deep_view(),
            rest.deep_view() == chosen(s.take(i as int), not_loud(loud_name@)),
        decreases fields.len() - i,
    {
        proof {
            lemma_chosen_step(s, i as int, not_loud(loud_name@));
        }
        if !text::same(
            text::to_uppercase(fields[i].name.as_str()).as_str(),
            loud_name.as_str(),
        ) {
            put(&mut rest, fields[i].clone());
        }
        i = i + 1;
    }
    proof {
        assert(s.take(s.len() as int) =~= s);
    }
    let ghost kept = rest.deep_view();
    let at: usize = if field_idx < rest.len() {
        field_idx
    } else {
        rest.len()
    };
    let tail: Vec<TagField> = rest.split_off(at);
    proof {
        assert(rest.deep_view() =~= kept.take(at as int));
        assert(tail.deep_view() =~= kept.skip(at as int));
    }
    let mut made: Vec<TagField> = nothing();
    let ghost vs = values.deep_view();
    let mut k: usize = 0;
    while k < values.len()
        invariant
            k <= values.len(),
            vs == values.deep_view(),
            made.len() == k,
            forall|j: int|
                0 <= j < k ==> (#[trigger] made[j]).deep_view() == valued(name@)(vs[j]),
        decreases values.len() - k,
    {
        made.push(
            TagField {
                name: name.clone(),
                value: values[k].clone(),
                editable: true,
                deleted: false,
            },
        );
        k = k + 1;
    }
    proof {
        assert(made.deep_view() =~= vs.map_values(valued(name@)));
    }
    put_all(&mut rest, made);
    put_all(&mut rest, tail);
    rest
}

/// Marking a field for deletion twice leaves the editor as it was.
pub proof fn law_mark_twice(m: EditorModel)
    ensures
        m.mark_switched().mark_switched() == m,
{
    let t = m.mark_switched();
    match m.field_in_hand() {
        Some(f) => {
            let i = m.current_item_idx as int;
            let k = m.current_field_idx as int;
            if f.editable && f.name != "New Tag"@ {
                assert(t.field_in_hand() == Some(TagFieldModel { deleted: !f.deleted, ..f }));
                assert(t.tag_fields[i].update(k, f) =~= m.tag_fields[i]);
                assert(t.mark_switched().tag_fields =~= m.tag_fields);
            }
        },
        None => {},
    }
}

/// The line that creates a tag is never marked for deletion.
pub proof fn law_new_tag_line_is_never_marked(m: EditorModel)
    requires
        m.field_in_hand() is Some,
        m.field_in_hand()->0.name == "New Tag"@,
    ensures
        m.mark_switched() == m,
{
}

/// Taking back a character just typed leaves the editor as it was.
pub proof fn law_untype(m: EditorModel, c: char)
    ensures
        m.typed(c).untyped() == m,
{
    assert(m.name_buffer.push(c).drop_last() =~= m.name_buffer);
    assert(m.value_buffer.push(c).drop_last() =~= m.value_buffer);
}

} // verus!
