use crate::lua::widgets::attributes::{
    horizontal_of, length_of, Horizontal, Length, Padding, WidgetError,
};
use crate::lua::widgets::LuaWidget;
use crate::number::Number;
use vstd::prelude::*;

verus! {

/// Widgets one below the other.
#[derive(Clone)]
pub struct LuaWidgetColumn {
    pub inner: Vec<LuaWidget>,
    pub spacing: Option<Number>,
    pub padding: Option<Padding>,
    pub width: Option<Length>,
    pub height: Option<Length>,
    pub align_x: Option<Horizontal>,
    pub clip: Option<bool>,
}

impl LuaWidgetColumn {
    /// A column of the given widgets, with nothing else set.
    pub fn new(inner: Vec<LuaWidget>) -> (r: Self)
        ensures
            r.inner == inner,
            r.spacing is None,
            r.padding is None,
            r.width is None,
            r.height is None,
            r.align_x is None,
            r.clip is None,
    {
        LuaWidgetColumn {
            inner,
            spacing: None,
            padding: None,
            width: None,
            height: None,
            align_x: None,
            clip: None,
        }
    }

    /// Sets the space between neighbours.
    pub fn spacing(self, spacing: Number) -> (r: Self)
        ensures
            r == (LuaWidgetColumn { spacing: Some(spacing), ..self }),
    {
        LuaWidgetColumn { spacing: Some(spacing), ..self }
    }

    /// Sets the space kept free inside, side by side.
    pub fn padding(self, top: Number, right: Number, bottom: Number, left: Number) -> (r: Self)
        ensures
            r == (LuaWidgetColumn { padding: Some(Padding { top, right, bottom, left }), ..self }),
    {
        LuaWidgetColumn { padding: Some(Padding { top, right, bottom, left }), ..self }
    }

    /// Sets the width from a word and, where the word needs one, a unit.
    pub fn width(self, word: &str, unit: Option<Number>) -> (r: Result<Self, WidgetError>)
        ensures
            r == (match length_of(word@, unit) {
                Ok(length) => Ok(LuaWidgetColumn { width: Some(length), ..self }),
                Err(e) => Err(e),
            }),
    {
        match Length::parse(word, unit) {
            Ok(length) => Ok(LuaWidgetColumn { width: Some(length), ..self }),
            Err(e) => Err(e),
        }
    }

    /// Sets the height from a word and, where the word needs one, a unit.
    pub fn height(self, word: &str, unit: Option<Number>) -> (r: Result<Self, WidgetError>)
        ensures
            r == (match length_of(word@, unit) {
                Ok(length) => Ok(LuaWidgetColumn { height: Some(length), ..self }),
                Err(e) => Err(e),
            }),
    {
        match Length::parse(word, unit) {
            Ok(length) => Ok(LuaWidgetColumn { height: Some(length), ..self }),
            Err(e) => Err(e),
        }
    }

    /// Sets the horizontal alignment from a word.
    pub fn align_x(self, word: &str) -> (r: Result<Self, WidgetError>)
        ensures
            r == (match horizontal_of(word@) {
                Ok(align) => Ok(LuaWidgetColumn { align_x: Some(align), ..self }),
                Err(e) => Err(e),
            }),
    {
        match Horizontal::parse(word) {
            Ok(align) => Ok(LuaWidgetColumn { align_x: Some(align), ..self }),
            Err(e) => Err(e),
        }
    }

    /// Sets whether what reaches beyond the bounds is cut off.
    pub fn clip(self, clip: bool) -> (r: Self)
        ensures
            r == (LuaWidgetColumn { clip: Some(clip), ..self }),
    {
        LuaWidgetColumn { clip: Some(clip), ..self }
    }

    /// This widget as a node of a widget tree.
    pub fn into_widget(self) -> (r: LuaWidget)
        ensures
            r == LuaWidget::Column(self),
    {
        LuaWidget::Column(self)
    }
}

} // verus!
