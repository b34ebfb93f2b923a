use crate::lua::widgets::attributes::{length_of, Length, WidgetError};
use crate::lua::widgets::LuaWidget;
use crate::number::Number;
use vstd::prelude::*;

verus! {

/// Widgets one over the other, the first at the bottom.
#[derive(Clone)]
pub struct LuaWidgetStack {
    pub inner: Vec<LuaWidget>,
    pub width: Option<Length>,
    pub height: Option<Length>,
    pub clip: Option<bool>,
}

impl LuaWidgetStack {
    /// A stack of the given widgets, with nothing else set.
    pub fn new(inner: Vec<LuaWidget>) -> (r: Self)
        ensures
            r.inner == inner,
            r.width is None,
            r.height is None,
            r.clip is None,
    {
        LuaWidgetStack { inner, width: None, height: None, clip: None }
    }

    /// Sets the width from a word and, where the word needs one, a unit.
    pub fn width(self, word: &str, unit: Option<Number>) -> (r: Result<Self, WidgetError>)
        ensures
            r == (match length_of(word@, unit) {
                Ok(length) => Ok(LuaWidgetStack { width: Some(length), ..self }),
                Err(e) => Err(e),
            }),
    {
        match Length::parse(word, unit) {
            Ok(length) => Ok(LuaWidgetStack { width: Some(length), ..self }),
            Err(e) => Err(e),
        }
    }

    /// Sets the height from a word and, where the word needs one, a unit.
    pub fn height(self, word: &str, unit: Option<Number>) -> (r: Result<Self, WidgetError>)
        ensures
            r == (match length_of(word@, unit) {
                Ok(length) => Ok(LuaWidgetStack { height: Some(length), ..self }),
                Err(e) => Err(e),
            }),
    {
        match Length::parse(word, unit) {
            Ok(length) => Ok(LuaWidgetStack { height: Some(length), ..self }),
            Err(e) => Err(e),
        }
    }

    /// Sets whether what reaches beyond the bounds is cut off.
    pub fn clip(self, clip: bool) -> (r: Self)
        ensures
            r == (LuaWidgetStack { clip: Some(clip), ..self }),
    {
        LuaWidgetStack { clip: Some(clip), ..self }
    }

    /// This widget as a node of a widget tree.
    pub fn into_widget(self) -> (r: LuaWidget)
        ensures
            r == LuaWidget::Stack(self),
    {
        LuaWidget::Stack(self)
    }
}

} // verus!
