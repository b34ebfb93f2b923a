use crate::assoc::AssocMap;
use crate::editor::{copy_texts, texts, App, OptionList};
use crate::error::LayoutError;
use crate::layout::component::{lemma_component_view, recorded_at, Component};
use crate::layout::settings::{ComponentSettings, SettingsValue, SettingsValueView};
use crate::lua::settings::{
    SettingsFactory, SettingsFactoryEntry, SettingsFactoryEntryContent, SettingsFactoryValue,
};
use crate::number::Number;
use crate::repository::{ComponentImages, ImageHandle};
use vstd::prelude::*;
use vstd::string::StringExecFns;

verus! {

/// One row of the form in which the parameters of a node are edited.
pub enum EditorRow {
    /// A heading, as it is shown.
    Header(String),
    /// A checkbox: name and state.
    Boolean(String, bool),
    /// A text field: name and text.
    Text(String, String),
    /// A list to choose from: name, what is chosen, and the choices.
    Options(String, String, Vec<String>),
    /// A field for a number: name and number.
    Number(String, Number),
    /// A slider: name, minimum, maximum, step, and where it stands.
    NumberRange(String, Number, Number, Number, Number),
    /// Four fields for the channels of a color: name and channels.
    Color(String, [Number; 4]),
    /// A button to pick an image, with the image that is kept: name and
    /// image.
    Image(String, Option<ImageHandle>),
}

/// An [`EditorRow`] as a mathematical value.
pub ghost enum EditorRowView {
    Header(Seq<char>),
    Boolean(Seq<char>, bool),
    Text(Seq<char>, Seq<char>),
    Options(Seq<char>, Seq<char>, Seq<Seq<char>>),
    Number(Seq<char>, Number),
    NumberRange(Seq<char>, Number, Number, Number, Number),
    Color(Seq<char>, Seq<Number>),
    Image(Seq<char>, Option<Seq<u8>>),
}

impl View for EditorRow {
    type V = EditorRowView;

    open spec fn view(&self) -> EditorRowView {
        match self {
            EditorRow::Header(title) => EditorRowView::Header(title@),
            EditorRow::Boolean(name, value) => EditorRowView::Boolean(name@, *value),
            EditorRow::Text(name, value) => EditorRowView::Text(name@, value@),
            EditorRow::Options(name, chosen, choices) => EditorRowView::Options(
                name@,
                chosen@,
                texts(choices@),
            ),
            EditorRow::Number(name, value) => EditorRowView::Number(name@, *value),
            EditorRow::NumberRange(name, min, max, step, value) => EditorRowView::NumberRange(
                name@,
                *min,
                *max,
                *step,
                *value,
            ),
            EditorRow::Color(name, channels) => EditorRowView::Color(name@, channels@),
            EditorRow::Image(name, image) => EditorRowView::Image(
                name@,
                match image {
                    Some(handle) => Some(handle@),
                    None => None,
                },
            ),
        }
    }
}

/// The rows of a list as mathematical values.
pub open spec fn rows_view(rows: Seq<EditorRow>) -> Seq<EditorRowView> {
    Seq::new(rows.len(), |i: int| rows[i]@)
}

/// A heading as it is shown.
pub open spec fn heading(title: Seq<char>) -> Seq<char> {
    "- "@ + title + " -"@
}

/// What one line of a schema gives the form, if the line is shown: `None`
/// for no row. A header gives its heading. A value line gives a row for
/// the value recorded under its name, by the kind of that value; a choice
/// and a number in a range give one only where the line declares the same
/// kind, a choice only where its choices are listed. An image for which
/// nothing is kept is an error.
pub open spec fn row_of(
    content: SettingsFactoryEntryContent,
    values: Map<Seq<char>, SettingsValueView>,
    images: Map<Seq<char>, Option<Seq<u8>>>,
    options: Map<Seq<char>, Seq<Seq<char>>>,
) -> Option<Result<EditorRowView, LayoutError>> {
    match content {
        SettingsFactoryEntryContent::Header(title) => Some(
            Ok(EditorRowView::Header(heading(title@))),
        ),
        SettingsFactoryEntryContent::Value(name, declared) => if !values.contains_key(name@) {
            None
        } else {
            match values[name@] {
                SettingsValueView::Boolean(v) => Some(Ok(EditorRowView::Boolean(name@, v))),
                SettingsValueView::String(v) => Some(Ok(EditorRowView::Text(name@, v))),
                SettingsValueView::Options(v) => if declared is Options && options.contains_key(
                    name@,
                ) {
                    Some(Ok(EditorRowView::Options(name@, v, options[name@])))
                } else {
                    None
                },
                SettingsValueView::Number(v) => Some(Ok(EditorRowView::Number(name@, v))),
                SettingsValueView::NumberRange(v) => match declared {
                    SettingsFactoryValue::NumberRange(min, max, step, _) => Some(
                        Ok(EditorRowView::NumberRange(name@, min, max, step, v)),
                    ),
                    _ => None,
                },
                SettingsValueView::Color(v) => Some(Ok(EditorRowView::Color(name@, v))),
                SettingsValueView::Image(_) => if images.contains_key(name@) {
                    Some(Ok(EditorRowView::Image(name@, images[name@])))
                } else {
                    Some(Err(LayoutError::NoImage))
                },
            }
        },
    }
}

/// Whether the line of an index is shown: it is unless it is marked
/// otherwise.
pub open spec fn marked_visible(visible: Seq<bool>, index: int) -> bool {
    !(0 <= index < visible.len()) || visible[index]
}

/// The form for a schema: the rows of its lines that are shown, in order,
/// or the first error among them.
pub open spec fn rows_of(
    entries: Seq<SettingsFactoryEntry>,
    values: Map<Seq<char>, SettingsValueView>,
    images: Map<Seq<char>, Option<Seq<u8>>>,
    options: Map<Seq<char>, Seq<Seq<char>>>,
    visible: Seq<bool>,
) -> Result<Seq<EditorRowView>, LayoutError>
    decreases entries.len(),
{
    if entries.len() == 0 {
        Ok(Seq::empty())
    } else {
        match rows_of(entries.drop_last(), values, images, options, visible) {
            Err(e) => Err(e),
            Ok(rows) => if !marked_visible(visible, entries.len() - 1) {
                Ok(rows)
            } else {
                match row_of(entries.last().content, values, images, options) {
                    None => Ok(rows),
                    Some(Ok(row)) => Ok(rows.push(row)),
                    Some(Err(e)) => Err(e),
                }
            },
        }
    }
}

fn row_for(
    content: &SettingsFactoryEntryContent,
    values: &ComponentSettings,
    images: &ComponentImages,
    options: &AssocMap<String, OptionList>,
) -> (r: Option<Result<EditorRow, LayoutError>>)
    ensures
        match (r, row_of(*content, values@, images@, options@)) {
            (None, None) => true,
            (Some(Ok(row)), Some(Ok(view))) => row@ == view,
            (Some(Err(e)), Some(Err(f))) => e == f,
            _ => false,
        },
{
    match content {
        SettingsFactoryEntryContent::Header(title) => {
            let mut text = "- ".to_owned();
            text.append(title.as_str());
            text.append(" -");
            Some(Ok(EditorRow::Header(text)))
        },
        SettingsFactoryEntryContent::Value(name, declared) => {
            match values.get(name) {
                None => None,
                Some(SettingsValue::Boolean(v)) => Some(Ok(EditorRow::Boolean(name.clone(), *v))),
                Some(SettingsValue::String(v)) => Some(
                    Ok(EditorRow::Text(name.clone(), v.clone())),
                ),
                Some(SettingsValue::Options(v)) => {
                    match (declared, options.get(name)) {
                        (SettingsFactoryValue::Options(_, _), Some(choices)) => Some(
                            Ok(
                                EditorRow::Options(
                                    name.clone(),
                                    v.clone(),
                                    copy_texts(&choices.0),
                                ),
                            ),
                        ),
                        _ => None,
                    }
                },
                Some(SettingsValue::Number(v)) => Some(Ok(EditorRow::Number(name.clone(), *v))),
                Some(SettingsValue::NumberRange(v)) => {
                    match declared {
                        SettingsFactoryValue::NumberRange(min, max, step, _) => Some(
                            Ok(EditorRow::NumberRange(name.clone(), *min, *max, *step, *v)),
                        ),
                        _ => None,
                    }
                },
                Some(SettingsValue::Color(v)) => Some(Ok(EditorRow::Color(name.clone(), *v))),
                Some(SettingsValue::Image(_)) => {
                    match images.get(name) {
                        None => Some(Err(LayoutError::NoImage)),
                        Some(slot) => Some(
                            Ok(
                                EditorRow::Image(
                                    name.clone(),
                                    match &slot.0 {
                                        Some(handle) => Some(handle.clone()),
                                        None => None,
                                    },
                                ),
                            ),
                        ),
                    }
                },
            }
        },
    }
}

/// Whether a result is the form that is meant, or its error.
pub open spec fn is_form(
    r: Result<Vec<EditorRow>, LayoutError>,
    meant: Result<Seq<EditorRowView>, LayoutError>,
) -> bool {
    match (r, meant) {
        (Ok(rows), Ok(views)) => rows_view(rows@) == views,
        (Err(e), Err(f)) => e == f,
        _ => false,
    }
}

/// The form for a schema, given which of its lines are shown (see
/// [`rows_of`]); a line that is not marked is shown.
pub fn editor_rows(
    schema: &SettingsFactory,
    values: &ComponentSettings,
    images: &ComponentImages,
    options: &AssocMap<String, OptionList>,
    visible: &Vec<bool>,
) -> (r: Result<Vec<EditorRow>, LayoutError>)
    ensures
        is_form(r, rows_of(schema.0@, values@, images@, options@, visible@)),
{
    let mut rows: Vec<EditorRow> = Vec::new();
    let mut i: usize = 0;
    proof {
        assert(rows_view(rows@) =~= Seq::<EditorRowView>::empty());
    }
    while i < schema.0.len()
        invariant
            i <= schema.0@.len(),
            rows_of(schema.0@.subrange(0, i as int), values@, images@, options@, visible@) == Ok::<
                Seq<EditorRowView>,
                LayoutError,
            >(rows_view(rows@)),
        decreases schema.0@.len() - i,
    {
        let ghost front = schema.0@.subrange(0, i as int);
        let ghost more = schema.0@.subrange(0, i + 1);
        let ghost before = rows_view(rows@);
        proof {
            assert(more.drop_last() =~= front);
            assert(more.last() == schema.0@[i as int]);
        }
        let shown = i >= visible.len() || visible[i];
        if shown {
            match row_for(&schema.0[i].content, values, images, options) {
                None => {},
                Some(Ok(row)) => {
                    rows.push(row);
                    proof {
                        assert(rows_view(rows@) =~= before.push(row@));
                    }
                },
                Some(Err(e)) => {
                    proof {
                        lemma_first_error_stays(
                            schema.0@,
                            values@,
                            images@,
                            options@,
                            visible@,
                            i + 1,
                        );
                    }
                    return Err(e);
                },
            }
        }
        i = i + 1;
    }
    proof {
        assert(schema.0@.subrange(0, schema.0@.len() as int) =~= schema.0@);
    }
    Ok(rows)
}

/// An error among the first lines of a schema is the error of the whole
/// schema.
proof fn lemma_first_error_stays(
    entries: Seq<SettingsFactoryEntry>,
    values: Map<Seq<char>, SettingsValueView>,
    images: Map<Seq<char>, Option<Seq<u8>>>,
    options: Map<Seq<char>, Seq<Seq<char>>>,
    visible: Seq<bool>,
    count: int,
)
    requires
        0 <= count <= entries.len(),
        rows_of(entries.subrange(0, count), values, images, options, visible) is Err,
    ensures
        rows_of(entries, values, images, options, visible) == rows_of(
            entries.subrange(0, count),
            values,
            images,
            options,
            visible,
        ),
    decreases entries.len() - count,
{
    if count < entries.len() {
        let more = entries.subrange(0, count + 1);
        assert(more.drop_last() =~= entries.subrange(0, count));
        lemma_first_error_stays(entries, values, images, options, visible, count + 1);
    } else {
        assert(entries.subrange(0, count) =~= entries);
    }
}

/// Whether a result is the form for a schema with the given answers of its
/// predicates, where every line without a predicate counts as shown.
pub open spec fn is_form_for(
    r: Result<Vec<EditorRow>, LayoutError>,
    entries: Seq<SettingsFactoryEntry>,
    values: Map<Seq<char>, SettingsValueView>,
    images: Map<Seq<char>, Option<Seq<u8>>>,
    options: Map<Seq<char>, Seq<Seq<char>>>,
    visible: Seq<bool>,
) -> bool {
    &&& visible.len() == entries.len()
    &&& forall|i: int|
        0 <= i < entries.len() && entries[i].show_if is None ==> #[trigger] visible[i]
    &&& is_form(r, rows_of(entries, values, images, options, visible))
}

/// The form in which the parameters of the node at `path` below `p` are
/// edited; `full_path` is the path of that node in the layout. Each line of
/// the node's schema that has a predicate is asked whether it is shown for
/// what is recorded now; a line without one is shown. The rows are those of
/// [`editor_rows`] for these answers. A node for which nothing is recorded
/// has an empty form.
pub fn component_editor(state: &App, p: &Component, full_path: Vec<usize>, path: Vec<usize>) -> (r:
    Result<Vec<EditorRow>, LayoutError>)
    ensures
        !p@.has_path(path@) ==> r is Err && r->Err_0 == LayoutError::NoSuchChild,
        p@.has_path(path@) && !state.layout.settings@.contains_key(full_path@) ==> r is Ok
            && r->Ok_0@.len() == 0,
        p@.has_path(path@) && state.layout.settings@.contains_key(full_path@) ==> exists|
            visible: Seq<bool>,
        | #[trigger]
            is_form_for(
                r,
                p@.node_at(path@).parameters,
                state.layout.settings@[full_path@],
                recorded_at(state.repository.layout_images@, full_path@),
                state.parameter_options@,
                visible,
            ),
{
    let node = match p.get_from_path(path) {
        Ok(node) => node,
        Err(e) => {
            return Err(e);
        },
    };
    proof {
        lemma_component_view(*node);
    }
    let values = match state.layout.settings.get(&full_path) {
        Some(values) => values,
        None => {
            return Ok(Vec::new());
        },
    };
    let nothing: ComponentImages = AssocMap::new();
    let images = match state.repository.layout_images.get(&full_path) {
        Some(images) => images,
        None => &nothing,
    };
    let mut visible: Vec<bool> = Vec::new();
    let mut i: usize = 0;
    while i < node.parameters.0.len()
        invariant
            i <= node.parameters.0@.len(),
            visible@.len() == i,
            forall|k: int|
                0 <= k < i && node.parameters.0@[k].show_if is None ==> #[trigger] visible@[k],
        decreases node.parameters.0@.len() - i,
    {
        visible.push(node.parameters.0[i].is_visible(&state.lua_context, values, images));
        i = i + 1;
    }
    let r = editor_rows(&node.parameters, values, images, &state.parameter_options, &visible);
    proof {
        assert(is_form_for(
            r,
            p@.node_at(path@).parameters,
            state.layout.settings@[full_path@],
            recorded_at(state.repository.layout_images@, full_path@),
            state.parameter_options@,
            visible@,
        ));
    }
    r
}

} // verus!
