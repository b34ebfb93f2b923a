use crate::assoc::{AssocMap, MapValue};
use crate::lua::{
    lua_boolean, lua_color, lua_image, lua_nil, lua_number, lua_string, runtime_error,
};
use crate::number::Number;
use crate::repository::{ComponentImages, ImageHandle};
use vstd::string::StringExecFns;
use vstd::prelude::*;

verus! {

/// What one node of the layout has recorded: parameter name to value.
pub type ComponentSettings = AssocMap<String, SettingsValue>;

/// What the whole layout has recorded: the path of a node to that node's
/// parameters. A path that is absent has nothing recorded yet.
pub type LayoutSettings = AssocMap<Vec<usize>, ComponentSettings>;

/// The current value of one parameter. It carries the value only: bounds,
/// choices and defaults belong to the schema.
#[derive(Debug)]
pub enum SettingsValue {
    Boolean(bool),
    String(String),
    Options(String),
    Number(Number),
    NumberRange(Number),
    Color([Number; 4]),
    Image(Option<Vec<u8>>),
}

/// A [`SettingsValue`] as a mathematical value.
pub ghost enum SettingsValueView {
    Boolean(bool),
    String(Seq<char>),
    Options(Seq<char>),
    Number(Number),
    NumberRange(Number),
    Color(Seq<Number>),
    Image(Option<Seq<u8>>),
}

impl View for SettingsValue {
    type V = SettingsValueView;

    open spec fn view(&self) -> SettingsValueView {
        match self {
            SettingsValue::Boolean(v) => SettingsValueView::Boolean(*v),
            SettingsValue::String(v) => SettingsValueView::String(v@),
            SettingsValue::Options(v) => SettingsValueView::Options(v@),
            SettingsValue::Number(v) => SettingsValueView::Number(*v),
            SettingsValue::NumberRange(v) => SettingsValueView::NumberRange(*v),
            SettingsValue::Color(v) => SettingsValueView::Color(v@),
            SettingsValue::Image(v) => SettingsValueView::Image(
                match v {
                    Some(bytes) => Some(bytes@),
                    None => None,
                },
            ),
        }
    }
}

impl Clone for SettingsValue {
    fn clone(&self) -> (r: Self)
        ensures
            r@ == self@,
    {
        match self {
            SettingsValue::Boolean(v) => SettingsValue::Boolean(*v),
            SettingsValue::String(v) => SettingsValue::String(v.clone()),
            SettingsValue::Options(v) => SettingsValue::Options(v.clone()),
            SettingsValue::Number(v) => SettingsValue::Number(*v),
            SettingsValue::NumberRange(v) => SettingsValue::NumberRange(*v),
            SettingsValue::Color(v) => SettingsValue::Color(*v),
            SettingsValue::Image(v) => SettingsValue::Image(
                match v {
                    Some(bytes) => Some(bytes.clone()),
                    None => None,
                },
            ),
        }
    }
}

impl MapValue for SettingsValue {
    fn copy_value(&self) -> (r: Self) {
        self.clone()
    }
}

/// A recorded value as a script sees it.
#[derive(Debug)]
pub enum ScriptValue {
    /// The lack of a value: an image parameter for which no image is chosen.
    Nil,
    Boolean(bool),
    Number(Number),
    Text(String),
    /// Red, green, blue and opacity, in this order.
    Color([Number; 4]),
    Image(ImageHandle),
}

/// A [`ScriptValue`] as a mathematical value.
pub ghost enum ScriptValueView {
    Nil,
    Boolean(bool),
    Number(Number),
    Text(Seq<char>),
    Color(Seq<Number>),
    Image(Seq<u8>),
}

impl View for ScriptValue {
    type V = ScriptValueView;

    open spec fn view(&self) -> ScriptValueView {
        match self {
            ScriptValue::Nil => ScriptValueView::Nil,
            ScriptValue::Boolean(v) => ScriptValueView::Boolean(*v),
            ScriptValue::Number(v) => ScriptValueView::Number(*v),
            ScriptValue::Text(v) => ScriptValueView::Text(v@),
            ScriptValue::Color(v) => ScriptValueView::Color(v@),
            ScriptValue::Image(v) => ScriptValueView::Image(v@),
        }
    }
}

impl ScriptValueView {
    /// Whether the runtime has to make room for the value when it is handed
    /// to a script, and so may fail to take it. A truth value, a number and
    /// the lack of a value are handed over as they are.
    pub open spec fn needs_room(self) -> bool {
        self is Text || self is Color || self is Image
    }
}

/// What a script is told when it asks for an image of which nothing is kept.
pub open spec fn missing_image_message() -> Seq<char> {
    "no image handle found in repository"@
}

/// What a script is told when it asks for a parameter that has no value.
pub open spec fn missing_setting_message(name: Seq<char>) -> Seq<char> {
    "couldn't find setting "@ + name + " in component"@
}

impl SettingsValueView {
    /// The value, recorded under `name`, as a script sees it, or what the
    /// script is told in place of it. A truth value, a number and a color are
    /// seen as they are, a text and a choice as a text. An image is what is
    /// kept for the name: the image, the lack of a value while none is
    /// chosen, and an error where nothing is kept.
    pub open spec fn seen(self, images: Map<Seq<char>, Option<Seq<u8>>>, name: Seq<char>) -> Result<
        ScriptValueView,
        Seq<char>,
    > {
        match self {
            SettingsValueView::Boolean(v) => Ok(ScriptValueView::Boolean(v)),
            SettingsValueView::String(v) => Ok(ScriptValueView::Text(v)),
            SettingsValueView::Options(v) => Ok(ScriptValueView::Text(v)),
            SettingsValueView::Number(v) => Ok(ScriptValueView::Number(v)),
            SettingsValueView::NumberRange(v) => Ok(ScriptValueView::Number(v)),
            SettingsValueView::Color(v) => Ok(ScriptValueView::Color(v)),
            SettingsValueView::Image(_) => if !images.contains_key(name) {
                Err(missing_image_message())
            } else {
                match images[name] {
                    Some(bytes) => Ok(ScriptValueView::Image(bytes)),
                    None => Ok(ScriptValueView::Nil),
                }
            },
        }
    }
}

/// What a script gets when it asks for the parameter of a name: the value
/// recorded under the name as a script sees it, and an error where nothing
/// is recorded under the name.
pub open spec fn setting_seen(
    settings: Map<Seq<char>, SettingsValueView>,
    images: Map<Seq<char>, Option<Seq<u8>>>,
    name: Seq<char>,
) -> Result<ScriptValueView, Seq<char>> {
    if settings.contains_key(name) {
        settings[name].seen(images, name)
    } else {
        Err(missing_setting_message(name))
    }
}

/// An answer to a script as a mathematical value.
pub open spec fn answer_view(answer: Result<ScriptValue, String>) -> Result<ScriptValueView, Seq<char>> {
    match answer {
        Ok(value) => Ok(value@),
        Err(message) => Err(message@),
    }
}

impl SettingsValue {
    /// The value as scripts see it: a truth value, a text, a number, four
    /// numbers, or for an image what is kept for the parameter of that
    /// name, the lack of a value while no image is chosen. An image
    /// parameter for which nothing is kept is an error, with what the
    /// script is told.
    pub fn inner(&self, images: &ComponentImages, name: &String) -> (r: Result<ScriptValue, String>)
        ensures
            answer_view(r) == self@.seen(images@, name@),
    {
        match self {
            SettingsValue::Boolean(v) => Ok(ScriptValue::Boolean(*v)),
            SettingsValue::String(v) => Ok(ScriptValue::Text(v.clone())),
            SettingsValue::Options(v) => Ok(ScriptValue::Text(v.clone())),
            SettingsValue::Number(v) => Ok(ScriptValue::Number(*v)),
            SettingsValue::NumberRange(v) => Ok(ScriptValue::Number(*v)),
            SettingsValue::Color(v) => Ok(ScriptValue::Color(*v)),
            SettingsValue::Image(_) => {
                match images.get(name) {
                    None => Err("no image handle found in repository".to_owned()),
                    Some(slot) => {
                        match &slot.0 {
                            Some(handle) => Ok(ScriptValue::Image(handle.clone())),
                            None => Ok(ScriptValue::Nil),
                        }
                    },
                }
            },
        }
    }
}

/// What a script is told when it asks for a parameter that has no value.
pub fn missing_setting(name: &str) -> (r: String)
    ensures
        r@ == missing_setting_message(name@),
{
    let mut message = "couldn't find setting ".to_owned();
    message.append(name);
    message.append(" in component");
    message
}

/// What a script gets when it asks for the parameter of a name: the value
/// recorded under the name, as scripts see it. A name under which nothing
/// is recorded is an error and never a default.
pub fn setting_value(settings: &ComponentSettings, images: &ComponentImages, name: &String) -> (r:
    Result<ScriptValue, String>)
    ensures
        answer_view(r) == setting_seen(settings@, images@, name@),
{
    match settings.get(name) {
        Some(value) => value.inner(images, name),
        None => Err(missing_setting(name.as_str())),
    }
}

/// Hands a value to the scripting runtime. Only a value for which the
/// runtime has to make room can fail to arrive.
pub(crate) fn hand_over(lua: &mlua::Lua, value: ScriptValue) -> (r: Result<mlua::Value, mlua::Error>)
    ensures
        !value@.needs_room() ==> r is Ok,
{
    match value {
        ScriptValue::Nil => Ok(lua_nil()),
        ScriptValue::Boolean(v) => Ok(lua_boolean(v)),
        ScriptValue::Number(v) => Ok(lua_number(v)),
        ScriptValue::Text(v) => lua_string(lua, v.as_str()),
        ScriptValue::Color(v) => lua_color(lua, &v),
        ScriptValue::Image(v) => lua_image(lua, v),
    }
}

/// Answers a script that asks for the parameter of a name: what
/// [`setting_value`] gives, handed to the runtime. The script gets an error
/// where [`setting_value`] gives one.
pub(crate) fn answer(
    lua: &mlua::Lua,
    settings: &ComponentSettings,
    images: &ComponentImages,
    name: &String,
) -> (r: Result<mlua::Value, mlua::Error>)
    ensures
        match setting_seen(settings@, images@, name@) {
            Ok(value) => !value.needs_room() ==> r is Ok,
            Err(_) => r is Err,
        },
{
    match setting_value(settings, images, name) {
        Ok(value) => hand_over(lua, value),
        Err(message) => Err(runtime_error(message)),
    }
}

impl SettingsValueView {
    /// A color with one channel replaced; the channel is the last where the
    /// index is past it. Any other value as it is.
    pub open spec fn with_channel(self, index: usize, channel: Number) -> SettingsValueView {
        match self {
            SettingsValueView::Color(c) => SettingsValueView::Color(
                c.update(
                    if index < 3 {
                        index as int
                    } else {
                        3
                    },
                    channel,
                ),
            ),
            other => other,
        }
    }
}

/// The recorded values of a node with one channel of the color of a name
/// replaced. Nothing changes where the name has no value.
pub open spec fn with_color_channel(
    values: Map<Seq<char>, SettingsValueView>,
    name: Seq<char>,
    index: usize,
    channel: Number,
) -> Map<Seq<char>, SettingsValueView> {
    if values.contains_key(name) {
        values.insert(name, values[name].with_channel(index, channel))
    } else {
        values
    }
}

/// Replaces one channel of the color that is recorded under a name; the
/// channel is the last where the index is past it. Nothing changes where
/// the name has no value or the value is no color.
pub fn set_color_channel(values: &mut ComponentSettings, name: &String, index: usize, channel: Number)
    ensures
        final(values)@ == with_color_channel(old(values)@, name@, index, channel),
{
    let ghost before = values@;
    match values.remove(name) {
        Some(SettingsValue::Color(color)) => {
            let mut color = color;
            let at: usize = if index < 3 {
                index
            } else {
                3
            };
            color[at] = channel;
            values.insert(name.clone(), SettingsValue::Color(color));
            assert(values@ =~= with_color_channel(before, name@, index, channel));
        },
        Some(other) => {
            values.insert(name.clone(), other);
            assert(values@ =~= before);
        },
        None => {
            assert(values@ =~= before);
        },
    }
}

} // verus!
