use crate::assoc::{AssocMap, MapValue};
use crate::error::LayoutError;
use crate::layout::settings::{ComponentSettings, SettingsValue, SettingsValueView};
use crate::lua::{call_predicate, script_error, LuaContext, STEP_LIMIT};
use crate::repository::ComponentImages;
use crate::number::Number;
use vstd::prelude::*;

verus! {

/// One line of a schema: what it declares, and the script predicate that
/// decides whether it is shown.
pub struct SettingsFactoryEntry {
    pub content: SettingsFactoryEntryContent,
    pub show_if: Option<mlua::RegistryKey>,
}

/// A header only groups the lines below it; a value declares a parameter
/// under a name.
#[derive(Clone)]
pub enum SettingsFactoryEntryContent {
    Header(String),
    Value(String, SettingsFactoryValue),
}

/// The full declaration of a parameter: its kind, its default and, where the
/// kind has them, its choices or bounds.
#[derive(Clone)]
pub enum SettingsFactoryValue {
    Boolean(bool),
    String(String),
    /// The choices, then the default.
    Options(Vec<String>, String),
    Number(Number),
    /// Minimum, maximum, step, default.
    NumberRange(Number, Number, Number, Number),
    Color([Number; 4]),
    Image,
}

/// The ordered schema of one component.
pub struct SettingsFactory(pub Vec<SettingsFactoryEntry>);

/// The kind of a parameter, shared by its declaration and its value.
pub ghost enum SettingKind {
    Boolean,
    String,
    Options,
    Number,
    NumberRange,
    Color,
    Image,
}

impl SettingsValueView {
    pub open spec fn kind(self) -> SettingKind {
        match self {
            SettingsValueView::Boolean(_) => SettingKind::Boolean,
            SettingsValueView::String(_) => SettingKind::String,
            SettingsValueView::Options(_) => SettingKind::Options,
            SettingsValueView::Number(_) => SettingKind::Number,
            SettingsValueView::NumberRange(_) => SettingKind::NumberRange,
            SettingsValueView::Color(_) => SettingKind::Color,
            SettingsValueView::Image(_) => SettingKind::Image,
        }
    }
}

impl SettingsFactoryValue {
    pub open spec fn kind(self) -> SettingKind {
        match self {
            SettingsFactoryValue::Boolean(_) => SettingKind::Boolean,
            SettingsFactoryValue::String(_) => SettingKind::String,
            SettingsFactoryValue::Options(_, _) => SettingKind::Options,
            SettingsFactoryValue::Number(_) => SettingKind::Number,
            SettingsFactoryValue::NumberRange(_, _, _, _) => SettingKind::NumberRange,
            SettingsFactoryValue::Color(_) => SettingKind::Color,
            SettingsFactoryValue::Image => SettingKind::Image,
        }
    }

    /// The value a parameter has before anything is recorded for it.
    pub open spec fn default_view(self) -> SettingsValueView {
        match self {
            SettingsFactoryValue::Boolean(d) => SettingsValueView::Boolean(d),
            SettingsFactoryValue::String(d) => SettingsValueView::String(d@),
            SettingsFactoryValue::Options(_, d) => SettingsValueView::Options(d@),
            SettingsFactoryValue::Number(d) => SettingsValueView::Number(d),
            SettingsFactoryValue::NumberRange(_, _, _, d) => SettingsValueView::NumberRange(d),
            SettingsFactoryValue::Color(d) => SettingsValueView::Color(d@),
            SettingsFactoryValue::Image => SettingsValueView::Image(None),
        }
    }

    /// Projects the declaration to its default value.
    pub fn to_settings_value(&self) -> (r: SettingsValue)
        ensures
            r@ == self.default_view(),
            r@.kind() == self.kind(),
    {
        match self {
            SettingsFactoryValue::Boolean(d) => SettingsValue::Boolean(*d),
            SettingsFactoryValue::String(d) => SettingsValue::String(d.clone()),
            SettingsFactoryValue::Options(_, d) => SettingsValue::Options(d.clone()),
            SettingsFactoryValue::Number(d) => SettingsValue::Number(*d),
            SettingsFactoryValue::NumberRange(_, _, _, d) => SettingsValue::NumberRange(*d),
            SettingsFactoryValue::Color(d) => SettingsValue::Color(*d),
            SettingsFactoryValue::Image => SettingsValue::Image(None),
        }
    }
}

/// The defaults that a sequence of schema lines gives: each value line puts
/// its default under its name, a later line of the same name replacing an
/// earlier one; headers give nothing.
pub open spec fn defaults_of(entries: Seq<SettingsFactoryEntry>) -> Map<Seq<char>, SettingsValueView>
    decreases entries.len(),
{
    if entries.len() == 0 {
        Map::empty()
    } else {
        let before = defaults_of(entries.drop_last());
        match entries.last().content {
            SettingsFactoryEntryContent::Header(_) => before,
            SettingsFactoryEntryContent::Value(name, value) => before.insert(
                name@,
                value.default_view(),
            ),
        }
    }
}

impl SettingsFactory {
    /// The values that a newly made component starts with.
    pub fn initialize_defaults(&self) -> (r: ComponentSettings)
        ensures
            r@ == defaults_of(self.0@),
    {
        let mut r: ComponentSettings = AssocMap::new();
        let mut i: usize = 0;
        while i < self.0.len()
            invariant
                i <= self.0@.len(),
                r@ == defaults_of(self.0@.subrange(0, i as int)),
            decreases self.0@.len() - i,
        {
            proof {
                assert(self.0@.subrange(0, i + 1).drop_last() =~= self.0@.subrange(0, i as int));
            }
            match &self.0[i].content {
                SettingsFactoryEntryContent::Header(_) => {},
                SettingsFactoryEntryContent::Value(name, value) => {
                    r.insert(name.clone(), value.to_settings_value());
                },
            }
            i = i + 1;
        }
        proof {
            assert(self.0@.subrange(0, self.0@.len() as int) =~= self.0@);
        }
        r
    }
}

impl SettingsFactoryEntryContent {
    /// The name a value line declares.
    pub open spec fn value_name(self) -> Option<Seq<char>> {
        match self {
            SettingsFactoryEntryContent::Header(_) => None,
            SettingsFactoryEntryContent::Value(name, _) => Some(name@),
        }
    }

    /// The default a value line declares.
    pub open spec fn value_default(self) -> Option<SettingsValueView> {
        match self {
            SettingsFactoryEntryContent::Header(_) => None,
            SettingsFactoryEntryContent::Value(_, value) => Some(value.default_view()),
        }
    }

    /// The kind a value line declares.
    pub open spec fn value_kind(self) -> Option<SettingKind> {
        match self {
            SettingsFactoryEntryContent::Header(_) => None,
            SettingsFactoryEntryContent::Value(_, value) => Some(value.kind()),
        }
    }
}

/// No two value lines declare the same name.
pub open spec fn names_unique(entries: Seq<SettingsFactoryEntry>) -> bool {
    forall|i: int, j: int|
        0 <= i < j < entries.len() && (#[trigger] entries[i]).content.value_name() is Some ==> entries[i].content.value_name()
            != (#[trigger] entries[j]).content.value_name()
}

/// How many of the lines are value lines.
pub open spec fn value_count(entries: Seq<SettingsFactoryEntry>) -> nat
    decreases entries.len(),
{
    if entries.len() == 0 {
        0
    } else if entries.last().content is Value {
        value_count(entries.drop_last()) + 1
    } else {
        value_count(entries.drop_last())
    }
}

/// The defaults have a key exactly for the names that value lines declare,
/// and what stands under a key is the default of a line of that name.
pub proof fn lemma_defaults_keys(entries: Seq<SettingsFactoryEntry>, key: Seq<char>)
    ensures
        defaults_of(entries).contains_key(key) <==> exists|i: int|
            0 <= i < entries.len() && (#[trigger] entries[i]).content.value_name() == Some(key),
        defaults_of(entries).contains_key(key) ==> exists|i: int|
            0 <= i < entries.len() && (#[trigger] entries[i]).content.value_name() == Some(key)
                && entries[i].content.value_default() == Some(defaults_of(entries)[key]),
    decreases entries.len(),
{
    if entries.len() > 0 {
        let front = entries.drop_last();
        let last = entries.last();
        lemma_defaults_keys(front, key);
        if last.content.value_name() == Some(key) {
            assert(entries[entries.len() - 1].content.value_name() == Some(key));
        } else {
            if defaults_of(entries).contains_key(key) {
                let i = choose|i: int|
                    0 <= i < front.len() && (#[trigger] front[i]).content.value_name() == Some(key)
                        && front[i].content.value_default() == Some(defaults_of(front)[key]);
                assert(entries[i] == front[i]);
            }
            if exists|i: int|
                0 <= i < entries.len() && (#[trigger] entries[i]).content.value_name() == Some(key) {
                let i = choose|i: int|
                    0 <= i < entries.len() && (#[trigger] entries[i]).content.value_name() == Some(
                        key,
                    );
                assert(front[i].content.value_name() == Some(key));
            }
        }
    }
}

/// Where no name is declared twice, the defaults hold exactly one value for
/// each value line and none for a header, and the value under a line's name
/// is that line's default, of that line's kind.
pub proof fn lemma_defaults_one_per_value_line(schema: SettingsFactory)
    requires
        names_unique(schema.0@),
    ensures
        defaults_of(schema.0@).dom().finite(),
        defaults_of(schema.0@).dom().len() == value_count(schema.0@),
        forall|i: int|
            0 <= i < schema.0@.len() && (#[trigger] schema.0@[i]).content is Value ==> {
                let name = schema.0@[i].content.value_name()->0;
                &&& defaults_of(schema.0@).contains_key(name)
                &&& Some(defaults_of(schema.0@)[name]) == schema.0@[i].content.value_default()
                &&& Some(defaults_of(schema.0@)[name].kind()) == schema.0@[i].content.value_kind()
            },
{
    lemma_defaults_unique_names(schema.0@);
}

proof fn lemma_defaults_unique_names(entries: Seq<SettingsFactoryEntry>)
    requires
        names_unique(entries),
    ensures
        defaults_of(entries).dom().finite(),
        defaults_of(entries).dom().len() == value_count(entries),
        forall|i: int|
            0 <= i < entries.len() && (#[trigger] entries[i]).content is Value ==> {
                let name = entries[i].content.value_name()->0;
                &&& defaults_of(entries).contains_key(name)
                &&& Some(defaults_of(entries)[name]) == entries[i].content.value_default()
                &&& Some(defaults_of(entries)[name].kind()) == entries[i].content.value_kind()
            },
    decreases entries.len(),
{
    if entries.len() > 0 {
        let front = entries.drop_last();
        let last = entries.last();
        assert(names_unique(front)) by {
            assert forall|i: int, j: int|
                0 <= i < j < front.len() && (#[trigger] front[i]).content.value_name() is Some implies front[i].content.value_name()
                != (#[trigger] front[j]).content.value_name() by {
                assert(entries[i] == front[i]);
                assert(entries[j] == front[j]);
            }
        }
        lemma_defaults_unique_names(front);
        match last.content {
            SettingsFactoryEntryContent::Header(_) => {
                assert forall|i: int|
                    0 <= i < entries.len() && (#[trigger] entries[i]).content is Value implies {
                    let name = entries[i].content.value_name()->0;
                    &&& defaults_of(entries).contains_key(name)
                    &&& Some(defaults_of(entries)[name]) == entries[i].content.value_default()
                    &&& Some(defaults_of(entries)[name].kind()) == entries[i].content.value_kind()
                } by {
                    if i < front.len() {
                        assert(entries[i] == front[i]);
                    }
                }
            },
            SettingsFactoryEntryContent::Value(last_name, last_value) => {
                lemma_defaults_keys(front, last_name@);
                if defaults_of(front).contains_key(last_name@) {
                    let i = choose|i: int|
                        0 <= i < front.len() && (#[trigger] front[i]).content.value_name() == Some(
                            last_name@,
                        );
                    assert(entries[i] == front[i]);
                    assert(entries[entries.len() - 1].content.value_name() == Some(last_name@));
                    assert(false);
                }
                assert forall|i: int|
                    0 <= i < entries.len() && (#[trigger] entries[i]).content is Value implies {
                    let name = entries[i].content.value_name()->0;
                    &&& defaults_of(entries).contains_key(name)
                    &&& Some(defaults_of(entries)[name]) == entries[i].content.value_default()
                    &&& Some(defaults_of(entries)[name].kind()) == entries[i].content.value_kind()
                } by {
                    if i < front.len() {
                        assert(entries[i] == front[i]);
                        if front[i].content is Value {
                            assert(front[i].content.value_name() != entries[entries.len()
                                - 1].content.value_name());
                        }
                    }
                }
            },
        }
    }
}

/// What a reload keeps of the recorded values of one node: for each value
/// line of the schema, the recorded value where one of that name and kind
/// exists, else the line's default. Names the schema does not declare are
/// not kept.
pub open spec fn reconciled(
    entries: Seq<SettingsFactoryEntry>,
    recorded: Map<Seq<char>, SettingsValueView>,
) -> Map<Seq<char>, SettingsValueView>
    decreases entries.len(),
{
    if entries.len() == 0 {
        Map::empty()
    } else {
        let before = reconciled(entries.drop_last(), recorded);
        match entries.last().content {
            SettingsFactoryEntryContent::Header(_) => before,
            SettingsFactoryEntryContent::Value(name, value) => before.insert(
                name@,
                if recorded.contains_key(name@) && recorded[name@].kind() == value.kind() {
                    recorded[name@]
                } else {
                    value.default_view()
                },
            ),
        }
    }
}

impl SettingsFactoryValue {
    /// Whether a recorded value is of the kind this line declares.
    pub fn accepts(&self, recorded: &SettingsValue) -> (r: bool)
        ensures
            r == (recorded@.kind() == self.kind()),
    {
        match (self, recorded) {
            (SettingsFactoryValue::Boolean(_), SettingsValue::Boolean(_)) => true,
            (SettingsFactoryValue::String(_), SettingsValue::String(_)) => true,
            (SettingsFactoryValue::Options(_, _), SettingsValue::Options(_)) => true,
            (SettingsFactoryValue::Number(_), SettingsValue::Number(_)) => true,
            (SettingsFactoryValue::NumberRange(_, _, _, _), SettingsValue::NumberRange(_)) => true,
            (SettingsFactoryValue::Color(_), SettingsValue::Color(_)) => true,
            (SettingsFactoryValue::Image, SettingsValue::Image(_)) => true,
            _ => false,
        }
    }
}

impl SettingsFactory {
    /// Merges what was recorded for a node under an earlier schema into this
    /// schema.
    pub fn reconcile(&self, recorded: &ComponentSettings) -> (r: ComponentSettings)
        ensures
            r@ == reconciled(self.0@, recorded@),
    {
        let mut r: ComponentSettings = AssocMap::new();
        let mut i: usize = 0;
        while i < self.0.len()
            invariant
                i <= self.0@.len(),
                r@ == reconciled(self.0@.subrange(0, i as int), recorded@),
            decreases self.0@.len() - i,
        {
            proof {
                assert(self.0@.subrange(0, i + 1).drop_last() =~= self.0@.subrange(0, i as int));
            }
            match &self.0[i].content {
                SettingsFactoryEntryContent::Header(_) => {},
                SettingsFactoryEntryContent::Value(name, value) => {
                    let kept = match recorded.get(name) {
                        Some(old) => {
                            if value.accepts(old) {
                                old.clone()
                            } else {
                                value.to_settings_value()
                            }
                        },
                        None => value.to_settings_value(),
                    };
                    r.insert(name.clone(), kept);
                },
            }
            i = i + 1;
        }
        proof {
            assert(self.0@.subrange(0, self.0@.len() as int) =~= self.0@);
        }
        r
    }
}

/// A reload keeps exactly the names the schema declares, whatever was
/// recorded, and every kept value is of the kind its line declares.
pub proof fn lemma_reconciled_keys(
    entries: Seq<SettingsFactoryEntry>,
    recorded: Map<Seq<char>, SettingsValueView>,
    key: Seq<char>,
)
    ensures
        reconciled(entries, recorded).contains_key(key) <==> defaults_of(entries).contains_key(key),
        reconciled(entries, recorded).contains_key(key) ==> reconciled(entries, recorded)[key].kind()
            == defaults_of(entries)[key].kind(),
        reconciled(entries, recorded).contains_key(key) ==> reconciled(entries, recorded)[key] == (if recorded.contains_key(
            key,
        ) && recorded[key].kind() == defaults_of(entries)[key].kind() {
            recorded[key]
        } else {
            defaults_of(entries)[key]
        }),
    decreases entries.len(),
{
    if entries.len() > 0 {
        lemma_reconciled_keys(entries.drop_last(), recorded, key);
    }
}

/// The schema with one more line at its end.
pub open spec fn with_entry(
    schema: SettingsFactory,
    content: SettingsFactoryEntryContent,
    show_if: Option<mlua::RegistryKey>,
) -> Seq<SettingsFactoryEntry> {
    schema.0@.push(SettingsFactoryEntry { content, show_if })
}

impl Default for SettingsFactory {
    /// The schema without lines.
    fn default() -> (r: Self)
        ensures
            r.0@.len() == 0,
    {
        SettingsFactory(Vec::new())
    }
}

impl SettingsFactory {
    fn with(self, content: SettingsFactoryEntryContent, show_if: Option<mlua::RegistryKey>) -> (r:
        Self)
        ensures
            r.0@ == with_entry(self, content, show_if),
    {
        let mut entries = self.0;
        entries.push(SettingsFactoryEntry { content, show_if });
        SettingsFactory(entries)
    }

    /// Adds a header.
    pub fn header(self, title: String, show_if: Option<mlua::RegistryKey>) -> (r: Self)
        ensures
            r.0@ == with_entry(self, SettingsFactoryEntryContent::Header(title), show_if),
    {
        self.with(SettingsFactoryEntryContent::Header(title), show_if)
    }

    /// Declares a truth value.
    pub fn boolean(self, name: String, default: bool, show_if: Option<mlua::RegistryKey>) -> (r:
        Self)
        ensures
            r.0@ == with_entry(
                self,
                SettingsFactoryEntryContent::Value(name, SettingsFactoryValue::Boolean(default)),
                show_if,
            ),
    {
        self.with(
            SettingsFactoryEntryContent::Value(name, SettingsFactoryValue::Boolean(default)),
            show_if,
        )
    }

    /// Declares a text.
    pub fn string(self, name: String, default: String, show_if: Option<mlua::RegistryKey>) -> (r:
        Self)
        ensures
            r.0@ == with_entry(
                self,
                SettingsFactoryEntryContent::Value(name, SettingsFactoryValue::String(default)),
                show_if,
            ),
    {
        self.with(
            SettingsFactoryEntryContent::Value(name, SettingsFactoryValue::String(default)),
            show_if,
        )
    }

    /// Declares a choice among the given options.
    pub fn options(
        self,
        name: String,
        options: Vec<String>,
        default: String,
        show_if: Option<mlua::RegistryKey>,
    ) -> (r: Self)
        ensures
            r.0@ == with_entry(
                self,
                SettingsFactoryEntryContent::Value(
                    name,
                    SettingsFactoryValue::Options(options, default),
                ),
                show_if,
            ),
    {
        self.with(
            SettingsFactoryEntryContent::Value(name, SettingsFactoryValue::Options(options, default)),
            show_if,
        )
    }

    /// Declares a number.
    pub fn number(self, name: String, default: Number, show_if: Option<mlua::RegistryKey>) -> (r:
        Self)
        ensures
            r.0@ == with_entry(
                self,
                SettingsFactoryEntryContent::Value(name, SettingsFactoryValue::Number(default)),
                show_if,
            ),
    {
        self.with(
            SettingsFactoryEntryContent::Value(name, SettingsFactoryValue::Number(default)),
            show_if,
        )
    }

    /// Declares a number between bounds, in steps.
    pub fn number_range(
        self,
        name: String,
        min: Number,
        max: Number,
        step: Number,
        default: Number,
        show_if: Option<mlua::RegistryKey>,
    ) -> (r: Self)
        ensures
            r.0@ == with_entry(
                self,
                SettingsFactoryEntryContent::Value(
                    name,
                    SettingsFactoryValue::NumberRange(min, max, step, default),
                ),
                show_if,
            ),
    {
        self.with(
            SettingsFactoryEntryContent::Value(
                name,
                SettingsFactoryValue::NumberRange(min, max, step, default),
            ),
            show_if,
        )
    }

    /// Declares a color, by its red, green, blue and opacity.
    pub fn color(
        self,
        name: String,
        r: Number,
        g: Number,
        b: Number,
        a: Number,
        show_if: Option<mlua::RegistryKey>,
    ) -> (out: Self)
        ensures
            out.0@ == with_entry(
                self,
                SettingsFactoryEntryContent::Value(name, SettingsFactoryValue::Color([r, g, b, a])),
                show_if,
            ),
    {
        self.with(
            SettingsFactoryEntryContent::Value(name, SettingsFactoryValue::Color([r, g, b, a])),
            show_if,
        )
    }

    /// Declares an image, which starts out unset.
    pub fn image(self, name: String, show_if: Option<mlua::RegistryKey>) -> (r: Self)
        ensures
            r.0@ == with_entry(
                self,
                SettingsFactoryEntryContent::Value(name, SettingsFactoryValue::Image),
                show_if,
            ),
    {
        self.with(SettingsFactoryEntryContent::Value(name, SettingsFactoryValue::Image), show_if)
    }
}

/// Whether a line is shown, given what asking its predicate gave: it is
/// hidden only where the predicate was asked and said so. A line without a
/// predicate, and a line whose predicate failed, is shown.
pub fn shown(asked: Option<Result<bool, LayoutError>>) -> (r: bool)
    ensures
        r == !(asked matches Some(Ok(answer)) && !answer),
{
    match asked {
        Some(Ok(answer)) => answer,
        _ => true,
    }
}

impl SettingsFactoryEntry {
    /// Whether the line is shown for the values that are recorded now. The
    /// line's predicate, if it has one, is asked with these values and
    /// images at hand, as a build function is (see
    /// [`crate::layout::settings::setting_value`]); see [`shown`] for what
    /// follows from its answer.
    pub fn is_visible(&self, lua: &LuaContext, settings: &ComponentSettings, images: &ComponentImages) -> (r:
        bool)
        ensures
            self.show_if is None ==> r,
    {
        let asked = match &self.show_if {
            None => None,
            Some(predicate) => {
                match call_predicate(
                    lua,
                    predicate,
                    settings.copy_value(),
                    images.copy_value(),
                    STEP_LIMIT,
                ) {
                    Ok(answer) => Some(Ok(answer)),
                    Err(e) => Some(Err(script_error(e))),
                }
            },
        };
        shown(asked)
    }
}

} // verus!
