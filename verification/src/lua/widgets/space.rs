use crate::lua::widgets::attributes::{length_of, Length, WidgetError};
use crate::lua::widgets::LuaWidget;
use crate::number::Number;
use vstd::prelude::*;

verus! {

/// Empty space.
#[derive(Clone, Copy, Debug)]
pub struct LuaWidgetSpace {
    pub width: Option<Length>,
    pub height: Option<Length>,
}

impl LuaWidgetSpace {
    /// Space with nothing set.
    pub fn new() -> (r: Self)
        ensures
            r.width is None,
            r.height is None,
    {
        LuaWidgetSpace { width: None, height: None }
    }

    /// Sets the width from a word and, where the word needs one, a unit.
    pub fn width(self, word: &str, unit: Option<Number>) -> (r: Result<Self, WidgetError>)
        ensures
            r == (match length_of(word@, unit) {
                Ok(length) => Ok(LuaWidgetSpace { width: Some(length), ..self }),
                Err(e) => Err(e),
            }),
    {
        match Length::parse(word, unit) {
            Ok(length) => Ok(LuaWidgetSpace { width: Some(length), ..self }),
            Err(e) => Err(e),
        }
    }

    /// Sets the height from a word and, where the word needs one, a unit.
    pub fn height(self, word: &str, unit: Option<Number>) -> (r: Result<Self, WidgetError>)
        ensures
            r == (match length_of(word@, unit) {
                Ok(length) => Ok(LuaWidgetSpace { height: Some(length), ..self }),
                Err(e) => Err(e),
            }),
    {
        match Length::parse(word, unit) {
            Ok(length) => Ok(LuaWidgetSpace { height: Some(length), ..self }),
            Err(e) => Err(e),
        }
    }

    /// This widget as a node of a widget tree.
    pub fn into_widget(self) -> (r: LuaWidget)
        ensures
            r == LuaWidget::Space(self),
    {
        LuaWidget::Space(self)
    }
}

} // verus!
