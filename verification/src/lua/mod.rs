use crate::assoc::AssocMap;
use crate::error::LayoutError;
use crate::layout::settings::{answer, ComponentSettings};
use crate::lua::settings::SettingsFactory;
use crate::lua::widgets::image::ImageHandleLua;
use crate::lua::widgets::LuaWidget;
use crate::number::Number;
use crate::repository::{ComponentImages, ImageHandle};
use vstd::prelude::*;
use vstd::string::StringExecFns;

pub mod settings;
pub mod widgets;

verus! {

/// The scripting runtime, held as it is.
#[verifier::external_type_specification]
#[verifier::external_body]
pub struct ExLua(mlua::Lua);

/// The key under which the interpreter keeps a value for its host. The value
/// can be had again only from the interpreter that made the key.
#[verifier::external_type_specification]
#[verifier::external_body]
pub struct ExRegistryKey(mlua::RegistryKey);

/// A value of the scripting runtime, held as it is.
#[verifier::external_type_specification]
#[verifier::external_body]
pub struct ExValue(mlua::Value);

/// An error of the scripting runtime.
#[verifier::external_type_specification]
#[verifier::external_body]
pub struct ExLuaError(mlua::Error);

/// The installed component scripts: the name a script gives itself, to the
/// text of the script.
pub type Catalog = AssocMap<String, String>;

/// The one interpreter that every script of a session is run by. It is made
/// once, by [`LuaContext::init`] and in no other way, and handed to each
/// operation that runs a script.
pub struct LuaContext {
    lua: mlua::Lua,
}

/// What evaluating the text of a component script yields.
pub struct ComponentScript {
    pub name: String,
    pub author: String,
    pub widget: mlua::RegistryKey,
    pub parameters: SettingsFactory,
}

/// How many steps of the virtual machine one run of a script may take. A
/// script that takes more is stopped with an error.
pub const STEP_LIMIT: u32 = 20_000_000;

/// What the node of a script is built with.
pub struct BuildInputs {
    /// What is recorded for the node.
    pub settings: ComponentSettings,
    /// The images that are kept for the node.
    pub images: ComponentImages,
    /// How many children the node has.
    pub children: usize,
}

/// The outcome of a step hook, as the runtime wants it.
#[verifier::external_type_specification]
#[verifier::external_body]
pub struct ExVmState(mlua::VmState);

/// `mlua::Lua::new_with`: a fresh interpreter with the libraries `table`,
/// `string`, `math`, `bit`, `os` and `package` beside the basic functions.
/// It has no `io`, so that no script waits for input, and no `jit`, so that
/// the interpreter compiles nothing to machine code and every step of a
/// script is counted (see [`STEP_LIMIT`]). Nothing is claimed of what comes
/// back. Where the interpreter cannot be made for want of memory, `mlua`
/// gives up the process.
#[verifier::external_body]
fn new_interpreter() -> Result<mlua::Lua, mlua::Error> {
    mlua::Lua::new_with(
        mlua::StdLib::TABLE | mlua::StdLib::STRING | mlua::StdLib::MATH | mlua::StdLib::BIT
            | mlua::StdLib::OS | mlua::StdLib::PACKAGE,
        mlua::LuaOptions::default(),
    )
}

/// Lets what the interpreter runs from now on take the given number of
/// steps and no more, with `mlua::Lua::set_global_hook`: once that many
/// steps of the virtual machine are taken, and again after as many more,
/// the runtime asks [`exhausted`] and raises the error it gives in the
/// script. The count starts anew with every call. The runtime hands the
/// number on as a signed one. What a function of the libraries does inside
/// is no step of the virtual machine and is not counted.
#[verifier::external_body]
fn limit_steps(lua: &mlua::Lua, steps: u32) -> Result<(), mlua::Error>
    requires
        0 < steps <= 0x7fff_ffff,
{
    lua.set_global_hook(mlua::HookTriggers::new().every_nth_instruction(steps), |lua, _| exhausted(lua))
}

/// What the runtime is told once a script has taken its steps: the script
/// is stopped with an error, and so it is at every further step, so that a
/// script that catches the error gets no further.
pub(crate) fn exhausted(lua: &mlua::Lua) -> (r: Result<mlua::VmState, mlua::Error>)
    ensures
        r is Err,
{
    match limit_steps(lua, 1) {
        Ok(_) => Err(out_of_steps()),
        Err(e) => Err(e),
    }
}

/// Reads as a text what a library of the interpreter holds under a name:
/// the field of the table that the globals (`mlua::Lua::globals`) hold
/// under the library's name, with `mlua::Table::get`. Nothing is claimed of
/// the text that comes back.
#[verifier::external_body]
fn member_text(lua: &mlua::Lua, library: &str, name: &str) -> Result<String, mlua::Error> {
    lua.globals().get::<mlua::Table>(library)?.get(name)
}

/// Writes a text under a name in a library of the interpreter, with
/// `mlua::Table::set`.
#[verifier::external_body]
fn set_member_text(lua: &mlua::Lua, library: &str, name: &str, value: &str) -> Result<(), mlua::Error> {
    lua.globals().get::<mlua::Table>(library)?.set(name, value)
}

/// Takes away what a library of the interpreter holds under a name, with
/// `mlua::Table::set` and the runtime's `nil`. The library is the table
/// that the globals (`mlua::Lua::globals`) hold under its name.
#[verifier::external_body]
fn clear_member(lua: &mlua::Lua, library: &str, name: &str) -> Result<(), mlua::Error> {
    lua.globals().get::<mlua::Table>(library)?.set(name, mlua::Value::Nil)
}

/// The text of a runtime error, as its `Display` gives it.
#[verifier::external_body]
fn error_message(error: &mlua::Error) -> String {
    error.to_string()
}

/// Evaluates a script text, with `mlua::Chunk::eval`, and leaves the value
/// it yields in the interpreter's registry
/// (`mlua::Lua::create_registry_value`). The text is read as source text
/// only (`mlua::Chunk::set_mode`): a compiled chunk is answered with an
/// error. What the script yields depends on the script and on what the
/// interpreter holds, so nothing is claimed of it.
#[verifier::external_body]
fn evaluate(lua: &mlua::Lua, source: &str) -> Result<mlua::RegistryKey, mlua::Error> {
    let yielded: mlua::Value = lua.load(source).set_mode(mlua::ChunkMode::Text).eval()?;
    lua.create_registry_value(yielded)
}

/// A fresh, empty table (`mlua::Lua::create_table`), left in the
/// interpreter's registry.
#[verifier::external_body]
fn new_table(lua: &mlua::Lua) -> Result<mlua::RegistryKey, mlua::Error> {
    lua.create_registry_value(lua.create_table()?)
}

/// Reads a field of a kept table as a text, with `mlua::Table::get`. It
/// fails where the key is not of this interpreter (`mlua::Lua::registry_value`)
/// or what is kept is no table. Nothing is claimed of the text.
#[verifier::external_body]
fn text_field(lua: &mlua::Lua, table: &mlua::RegistryKey, name: &str) -> Result<String, mlua::Error> {
    lua.registry_value::<mlua::Table>(table)?.get(name)
}

/// Reads a field of a kept table as a function, with `mlua::Table::get`,
/// and leaves the function in the interpreter's registry. It fails where
/// the key is not of this interpreter, what is kept is no table or the
/// field holds no function.
#[verifier::external_body]
fn function_field(lua: &mlua::Lua, table: &mlua::RegistryKey, name: &str) -> Result<
    mlua::RegistryKey,
    mlua::Error,
> {
    lua.create_registry_value(lua.registry_value::<mlua::Table>(table)?.get::<mlua::Function>(name)?)
}

/// Writes a count to a field of a kept table, with `mlua::Table::set`. It
/// fails where the key is not of this interpreter or what is kept is no
/// table.
#[verifier::external_body]
fn set_count_field(lua: &mlua::Lua, table: &mlua::RegistryKey, name: &str, value: usize) -> Result<
    (),
    mlua::Error,
> {
    lua.registry_value::<mlua::Table>(table)?.set(name, value)
}

/// Writes a kept value to a field of a kept table, with `mlua::Table::set`.
/// It fails where a key is not of this interpreter or what is kept under
/// the first is no table.
#[verifier::external_body]
fn set_field(lua: &mlua::Lua, table: &mlua::RegistryKey, name: &str, value: &mlua::RegistryKey) -> Result<
    (),
    mlua::Error,
> {
    lua.registry_value::<mlua::Table>(table)?.set(name, lua.registry_value::<mlua::Value>(value)?)
}

/// A function of the runtime, made with `mlua::Lua::create_function` and
/// left in the interpreter's registry, that scripts call with a name: it
/// gives what [`answer`] gives for the values and images handed in.
#[verifier::external_body]
fn setting_function(lua: &mlua::Lua, settings: ComponentSettings, images: ComponentImages) -> Result<
    mlua::RegistryKey,
    mlua::Error,
> {
    lua.create_registry_value(
        lua.create_function(move |lua, name: String| answer(lua, &settings, &images, &name))?,
    )
}

/// Calls a kept function of a script without arguments, with
/// `mlua::Function::call`, and takes the schema out of the value that comes
/// back, with `mlua::AnyUserData::take`. It fails where the key is not of
/// this interpreter or what is kept is no function. Nothing is claimed of
/// the schema.
#[verifier::external_body]
fn call_for_schema(lua: &mlua::Lua, function: &mlua::RegistryKey) -> Result<SettingsFactory, mlua::Error> {
    lua.registry_value::<mlua::Function>(function)?.call::<mlua::AnyUserData>(())?.take()
}

/// Calls a kept function of a script on a kept value, with
/// `mlua::Function::call`, and copies the widget that the value that comes
/// back holds (`mlua::AnyUserData::borrow`), so that the script keeps its
/// own. It fails where a key is not of this interpreter or what is kept
/// under the first is no function. Nothing is claimed of the widget.
#[verifier::external_body]
fn call_for_widget(lua: &mlua::Lua, function: &mlua::RegistryKey, argument: &mlua::RegistryKey) -> Result<
    LuaWidget,
    mlua::Error,
> {
    let argument: mlua::Value = lua.registry_value(argument)?;
    let made: mlua::AnyUserData = lua.registry_value::<mlua::Function>(function)?.call(argument)?;
    let widget = made.borrow::<LuaWidget>()?;
    Ok(widget.clone())
}

/// Calls a kept function of a script on a kept value, with
/// `mlua::Function::call`, and reads what comes back as a truth value, as
/// the runtime does: all but `nil` and `false` count as true. It fails
/// where a key is not of this interpreter or what is kept under the first
/// is no function. Nothing is claimed of the answer.
#[verifier::external_body]
fn call_for_truth(lua: &mlua::Lua, function: &mlua::RegistryKey, argument: &mlua::RegistryKey) -> Result<
    bool,
    mlua::Error,
> {
    let argument: mlua::Value = lua.registry_value(argument)?;
    lua.registry_value::<mlua::Function>(function)?.call(argument)
}

/// Evaluates the text of a component script, within the given number of
/// steps. The script yields a table: calling its field `settings` gives the
/// schema, its fields `name` and `author` are texts, and its field `widget`
/// is the build function, which is left in the interpreter's registry.
pub(crate) fn eval_component(context: &LuaContext, source: &str, steps: u32) -> (r: Result<
    ComponentScript,
    mlua::Error,
>)
    requires
        0 < steps <= 0x7fff_ffff,
{
    let lua = &context.lua;
    limit_steps(lua, steps)?;
    let table = evaluate(lua, source)?;
    let settings = function_field(lua, &table, "settings")?;
    let parameters = call_for_schema(lua, &settings)?;
    let name = text_field(lua, &table, "name")?;
    let author = text_field(lua, &table, "author")?;
    let widget = function_field(lua, &table, "widget")?;
    Ok(ComponentScript { name, author, widget, parameters })
}

/// Evaluates the text of a component script, within the given number of
/// steps, and reads the field `name` of the table it yields.
pub(crate) fn eval_name(context: &LuaContext, source: &str, steps: u32) -> (r: Result<String, mlua::Error>)
    requires
        0 < steps <= 0x7fff_ffff,
{
    let lua = &context.lua;
    limit_steps(lua, steps)?;
    let table = evaluate(lua, source)?;
    text_field(lua, &table, "name")
}

/// What the interpreter's search path becomes once the component and library
/// directories below the data directory are added to it.
pub open spec fn search_path(current: Seq<char>, data_dir: Seq<char>) -> Seq<char> {
    current + ";"@ + data_dir + "/yast/components/?.lua;"@ + data_dir
        + "/yast/components/?/init.lua;"@ + data_dir + "/yast/lib/?.lua;"@ + data_dir
        + "/yast/lib/?/init.lua"@
}

/// The interpreter's search path with the component and library directories
/// below the data directory added.
pub fn extend_search_path(current: String, data_dir: &str) -> (r: String)
    ensures
        r@ == search_path(current@, data_dir@),
{
    let mut path = current;
    path.append(";");
    path.append(data_dir);
    path.append("/yast/components/?.lua;");
    path.append(data_dir);
    path.append("/yast/components/?/init.lua;");
    path.append(data_dir);
    path.append("/yast/lib/?.lua;");
    path.append(data_dir);
    path.append("/yast/lib/?/init.lua");
    path
}

/// Turns a failure of the runtime into this library's error.
pub fn script_error(error: mlua::Error) -> (r: LayoutError)
    ensures
        r is Script,
{
    LayoutError::Script(error_message(&error))
}

/// What the interpreter runs before anything else: from then on `require`
/// finds a module on the search path as before, and reads its file as
/// source text only.
fn text_modules() -> &'static str {
    "local package, loadfile, error = package, loadfile, error\n\
     local searchpath = package.searchpath\n\
     package.loaders[2] = function(name)\n\
       local file, missing = searchpath(name, package.path)\n\
       if not file then return missing end\n\
       local chunk, problem = loadfile(file, 't')\n\
       if not chunk then error(problem, 0) end\n\
       return chunk\n\
     end\n"
}

/// Makes the interpreter that scripts are run by. It is under the limit of
/// [`STEP_LIMIT`] steps from the start and reads modules as source text
/// only (see [`text_modules`]). Scripts get none of the basic functions
/// that read a chunk from a text, a file or the standard input: these take
/// compiled chunks too, which the runtime does not check, and two of them
/// wait where they are given no file. Nor do they get the functions of `os`
/// that end the process or wait for another program. The basic functions
/// are those of the library `_G`, which is the table of the globals itself.
fn guarded_interpreter() -> Result<mlua::Lua, mlua::Error> {
    let lua = new_interpreter()?;
    limit_steps(&lua, STEP_LIMIT)?;
    evaluate(&lua, text_modules())?;
    clear_member(&lua, "_G", "load")?;
    clear_member(&lua, "_G", "loadstring")?;
    clear_member(&lua, "_G", "loadfile")?;
    clear_member(&lua, "_G", "dofile")?;
    clear_member(&lua, "os", "exit")?;
    clear_member(&lua, "os", "execute")?;
    Ok(lua)
}

impl LuaContext {
    /// The interpreter of the context.
    pub closed spec fn interpreter(self) -> mlua::Lua {
        self.lua
    }

    /// The interpreter, for the host to tell it what scripts can call.
    pub fn lua(&self) -> (r: &mlua::Lua)
        ensures
            *r == self.interpreter(),
    {
        &self.lua
    }

    /// Makes the interpreter (see [`guarded_interpreter`]) and lets it find
    /// scripts below the data directory. It fails only where the
    /// interpreter does.
    pub fn init(data_dir: &str) -> (r: Result<Self, LayoutError>)
        ensures
            r is Err ==> r->Err_0 is Script,
    {
        let lua = match guarded_interpreter() {
            Ok(lua) => lua,
            Err(e) => {
                return Err(script_error(e));
            },
        };
        let current = match member_text(&lua, "package", "path") {
            Ok(current) => current,
            Err(e) => {
                return Err(script_error(e));
            },
        };
        let extended = extend_search_path(current, data_dir);
        match set_member_text(&lua, "package", "path", extended.as_str()) {
            Ok(_) => Ok(LuaContext { lua }),
            Err(e) => Err(script_error(e)),
        }
    }
}

/// The runtime's `nil`.
#[verifier::external_body]
pub(crate) fn lua_nil() -> mlua::Value {
    mlua::Value::Nil
}

/// A truth value as a value of the runtime, `mlua::Value::Boolean`.
#[verifier::external_body]
pub(crate) fn lua_boolean(value: bool) -> mlua::Value {
    mlua::Value::Boolean(value)
}

/// A number as a value of the runtime, `mlua::Value::Number`: the number
/// with the same bit pattern.
#[verifier::external_body]
pub(crate) fn lua_number(value: Number) -> mlua::Value {
    mlua::Value::Number(mlua::Number::from_bits(value.bits))
}

/// A text as a string of the runtime, made with `mlua::Lua::create_string`.
#[verifier::external_body]
pub(crate) fn lua_string(lua: &mlua::Lua, value: &str) -> Result<mlua::Value, mlua::Error> {
    Ok(mlua::Value::String(lua.create_string(value)?))
}

/// A color as a table of the runtime that holds its four numbers in order,
/// made with `mlua::Lua::create_table` and `mlua::Table::push`.
#[verifier::external_body]
pub(crate) fn lua_color(lua: &mlua::Lua, color: &[Number; 4]) -> Result<mlua::Value, mlua::Error> {
    let table = lua.create_table()?;
    table.push(mlua::Number::from_bits(color[0].bits))?;
    table.push(mlua::Number::from_bits(color[1].bits))?;
    table.push(mlua::Number::from_bits(color[2].bits))?;
    table.push(mlua::Number::from_bits(color[3].bits))?;
    Ok(mlua::Value::Table(table))
}

/// An image as a value of the runtime that scripts hand on but cannot look
/// into, made with `mlua::Lua::create_any_userdata`.
#[verifier::external_body]
pub(crate) fn lua_image(lua: &mlua::Lua, image: ImageHandle) -> Result<mlua::Value, mlua::Error> {
    Ok(mlua::Value::UserData(lua.create_any_userdata(ImageHandleLua(image))?))
}

/// An error with a message, for the runtime to raise in the script:
/// `mlua::Error::runtime`.
#[verifier::external_body]
pub(crate) fn runtime_error(message: String) -> mlua::Error {
    mlua::Error::runtime(message)
}

/// The error that ends a script which has taken too many steps.
pub(crate) fn out_of_steps() -> mlua::Error {
    runtime_error("the script has taken too many steps".to_owned())
}

/// Calls the build function that the interpreter keeps under the key,
/// within the given number of steps. The function is called on a table that
/// holds the function `setting`, which answers with the values and images
/// handed in, and the table `children` with the number `len`. It fails
/// where the key is not of this interpreter.
pub(crate) fn call_widget(
    context: &LuaContext,
    widget: &mlua::RegistryKey,
    inputs: BuildInputs,
    steps: u32,
) -> (r: Result<LuaWidget, mlua::Error>)
    requires
        0 < steps <= 0x7fff_ffff,
{
    let lua = &context.lua;
    limit_steps(lua, steps)?;
    let environment = new_table(lua)?;
    let setting = setting_function(lua, inputs.settings, inputs.images)?;
    set_field(lua, &environment, "setting", &setting)?;
    let counted = new_table(lua)?;
    set_count_field(lua, &counted, "len", inputs.children)?;
    set_field(lua, &environment, "children", &counted)?;
    call_for_widget(lua, widget, &environment)
}

/// Calls the predicate that the interpreter keeps under the key, within the
/// given number of steps, on the function `setting`, which answers with the
/// values and images handed in. It fails where the key is not of this
/// interpreter.
pub(crate) fn call_predicate(
    context: &LuaContext,
    predicate: &mlua::RegistryKey,
    settings: ComponentSettings,
    images: ComponentImages,
    steps: u32,
) -> (r: Result<bool, mlua::Error>)
    requires
        0 < steps <= 0x7fff_ffff,
{
    let lua = &context.lua;
    limit_steps(lua, steps)?;
    let setting = setting_function(lua, settings, images)?;
    call_for_truth(lua, predicate, &setting)
}

} // verus!
