use crate::lua::widgets::attributes::{
    content_fit_of, filter_method_of, length_of, ContentFit, FilterMethod, Length, Rectangle,
    WidgetError,
};
use crate::lua::widgets::LuaWidget;
use crate::number::Number;
use crate::repository::ImageHandle;
use vstd::prelude::*;

verus! {

/// An image as scripts hold it.
#[derive(Clone)]
pub struct ImageHandleLua(pub ImageHandle);

/// An image.
#[derive(Clone)]
pub struct LuaWidgetImage {
    pub handle: ImageHandleLua,
    pub width: Option<Length>,
    pub height: Option<Length>,
    pub content_fit: Option<ContentFit>,
    pub filter_method: Option<FilterMethod>,
    pub opacity: Option<Number>,
    pub crop: Option<Rectangle>,
}

impl LuaWidgetImage {
    /// The image, with nothing else set.
    pub fn new(handle: ImageHandleLua) -> (r: Self)
        ensures
            r.handle == handle,
            r.width is None,
            r.height is None,
            r.content_fit is None,
            r.filter_method is None,
            r.opacity is None,
            r.crop is None,
    {
        LuaWidgetImage {
            handle,
            width: None,
            height: None,
            content_fit: None,
            filter_method: None,
            opacity: None,
            crop: None,
        }
    }

    /// Sets the width from a word and, where the word needs one, a unit.
    pub fn width(self, word: &str, unit: Option<Number>) -> (r: Result<Self, WidgetError>)
        ensures
            r == (match length_of(word@, unit) {
                Ok(length) => Ok(LuaWidgetImage { width: Some(length), ..self }),
                Err(e) => Err(e),
            }),
    {
        match Length::parse(word, unit) {
            Ok(length) => Ok(LuaWidgetImage { width: Some(length), ..self }),
            Err(e) => Err(e),
        }
    }

    /// Sets the height from a word and, where the word needs one, a unit.
    pub fn height(self, word: &str, unit: Option<Number>) -> (r: Result<Self, WidgetError>)
        ensures
            r == (match length_of(word@, unit) {
                Ok(length) => Ok(LuaWidgetImage { height: Some(length), ..self }),
                Err(e) => Err(e),
            }),
    {
        match Length::parse(word, unit) {
            Ok(length) => Ok(LuaWidgetImage { height: Some(length), ..self }),
            Err(e) => Err(e),
        }
    }

    /// Sets how the image is fitted into its bounds, from a word.
    pub fn content_fit(self, word: &str) -> (r: Result<Self, WidgetError>)
        ensures
            r == (match content_fit_of(word@) {
                Ok(fit) => Ok(LuaWidgetImage { content_fit: Some(fit), ..self }),
                Err(e) => Err(e),
            }),
    {
        match ContentFit::parse(word) {
            Ok(fit) => Ok(LuaWidgetImage { content_fit: Some(fit), ..self }),
            Err(e) => Err(e),
        }
    }

    /// Sets how the image is scaled, from a word.
    pub fn filter_method(self, word: &str) -> (r: Result<Self, WidgetError>)
        ensures
            r == (match filter_method_of(word@) {
                Ok(method) => Ok(LuaWidgetImage { filter_method: Some(method), ..self }),
                Err(e) => Err(e),
            }),
    {
        match FilterMethod::parse(word) {
            Ok(method) => Ok(LuaWidgetImage { filter_method: Some(method), ..self }),
            Err(e) => Err(e),
        }
    }

    /// Sets how much of what lies behind the image shows through.
    pub fn opacity(self, opacity: Number) -> (r: Self)
        ensures
            r == (LuaWidgetImage { opacity: Some(opacity), ..self }),
    {
        LuaWidgetImage { opacity: Some(opacity), ..self }
    }

    /// Sets the part of the image that is shown.
    pub fn crop(self, x: u32, y: u32, width: u32, height: u32) -> (r: Self)
        ensures
            r == (LuaWidgetImage { crop: Some(Rectangle { x, y, width, height }), ..self }),
    {
        LuaWidgetImage { crop: Some(Rectangle { x, y, width, height }), ..self }
    }

    /// This widget as a node of a widget tree.
    pub fn into_widget(self) -> (r: LuaWidget)
        ensures
            r == LuaWidget::Image(self),
    {
        LuaWidget::Image(self)
    }
}

} // verus!
