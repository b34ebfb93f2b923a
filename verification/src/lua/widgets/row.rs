use crate::lua::widgets::attributes::{
    length_of, vertical_of, Length, Padding, Vertical, WidgetError,
};
use crate::lua::widgets::LuaWidget;
use crate::number::Number;
use vstd::prelude::*;

verus! {

/// Widgets side by side.
#[derive(Clone)]
pub struct LuaWidgetRow {
    pub inner: Vec<LuaWidget>,
    pub spacing: Option<Number>,
    pub padding: Option<Padding>,
    pub width: Option<Length>,
    pub height: Option<Length>,
    pub align_y: Option<Vertical>,
    pub clip: Option<bool>,
}

impl LuaWidgetRow {
    /// A row of the given widgets, with nothing else set.
    pub fn new(inner: Vec<LuaWidget>) -> (r: Self)
        ensures
            r.inner == inner,
            r.spacing is None,
            r.padding is None,
            r.width is None,
            r.height is None,
            r.align_y is None,
            r.clip is None,
    {
        LuaWidgetRow {
            inner,
            spacing: None,
            padding: None,
            width: None,
            height: None,
            align_y: None,
            clip: None,
        }
    }

    /// Sets the space between neighbours.
    pub fn spacing(self, spacing: Number) -> (r: Self)
        ensures
            r == (LuaWidgetRow { spacing: Some(spacing), ..self }),
    {
        LuaWidgetRow { spacing: Some(spacing), ..self }
    }

    /// Sets the space kept free inside, side by side.
    pub fn padding(self, top: Number, right: Number, bottom: Number, left: Number) -> (r: Self)
        ensures
            r == (LuaWidgetRow { padding: Some(Padding { top, right, bottom, left }), ..self }),
    {
        LuaWidgetRow { padding: Some(Padding { top, right, bottom, left }), ..self }
    }

    /// Sets the width from a word and, where the word needs one, a unit.
    pub fn width(self, word: &str, unit: Option<Number>) -> (r: Result<Self, WidgetError>)
        ensures
            r == (match length_of(word@, unit) {
                Ok(length) => Ok(LuaWidgetRow { width: Some(length), ..self }),
                Err(e) => Err(e),
            }),
    {
        match Length::parse(word, unit) {
            Ok(length) => Ok(LuaWidgetRow { width: Some(length), ..self }),
            Err(e) => Err(e),
        }
    }

    /// Sets the height from a word and, where the word needs one, a unit.
    pub fn height(self, word: &str, unit: Option<Number>) -> (r: Result<Self, WidgetError>)
        ensures
            r == (match length_of(word@, unit) {
                Ok(length) => Ok(LuaWidgetRow { height: Some(length), ..self }),
                Err(e) => Err(e),
            }),
    {
        match Length::parse(word, unit) {
            Ok(length) => Ok(LuaWidgetRow { height: Some(length), ..self }),
            Err(e) => Err(e),
        }
    }

    /// Sets the vertical alignment from a word.
    pub fn align_y(self, word: &str) -> (r: Result<Self, WidgetError>)
        ensures
            r == (match vertical_of(word@) {
                Ok(align) => Ok(LuaWidgetRow { align_y: Some(align), ..self }),
                Err(e) => Err(e),
            }),
    {
        match Vertical::parse(word) {
            Ok(align) => Ok(LuaWidgetRow { align_y: Some(align), ..self }),
            Err(e) => Err(e),
        }
    }

    /// Sets whether what reaches beyond the bounds is cut off.
    pub fn clip(self, clip: bool) -> (r: Self)
        ensures
            r == (LuaWidgetRow { clip: Some(clip), ..self }),
    {
        LuaWidgetRow { clip: Some(clip), ..self }
    }

    /// This widget as a node of a widget tree.
    pub fn into_widget(self) -> (r: LuaWidget)
        ensures
            r == LuaWidget::Row(self),
    {
        LuaWidget::Row(self)
    }
}

} // verus!
