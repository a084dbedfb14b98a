//! Configuration of a wrapper: where its layer surface is anchored, on which
//! layer it sits, how it takes keyboard focus, the ranges its size may take,
//! and the command that it wraps.

use vstd::prelude::*;

verus! {

/// Bit of the layer-shell anchor for the top edge.
pub const ANCHOR_TOP: u32 = 1;
/// Bit of the layer-shell anchor for the bottom edge.
pub const ANCHOR_BOTTOM: u32 = 2;
/// Bit of the layer-shell anchor for the left edge.
pub const ANCHOR_LEFT: u32 = 4;
/// Bit of the layer-shell anchor for the right edge.
pub const ANCHOR_RIGHT: u32 = 8;

/// Edge to which the panel is anchored
#[derive(Clone, Copy, Debug, PartialEq, Eq, Structural)]
pub enum Anchor {
    /// anchored to left edge
    Left,
    /// anchored to right edge
    Right,
    /// anchored to top edge
    Top,
    /// anchored to bottom edge
    Bottom,
    /// not anchored to any edge
    Center,
    /// anchored to the top and left edges
    TopLeft,
    /// anchored to the top and right edges
    TopRight,
    /// anchored to the bottom and left edges
    BottomLeft,
    /// anchored to the bottom and right edges
    BottomRight,
}

impl Default for Anchor {
    fn default() -> (a: Self)
        ensures
            a == Anchor::Top,
    {
        Anchor::Top
    }
}

/// Whether the anchor bit set `bits` holds every bit of `flag`.
pub open spec fn anchor_contains(bits: u32, flag: u32) -> bool {
    bits & flag == flag
}

/// The anchor that a layer-shell anchor bit set is read as. The edges are
/// tested one by one (left, right, top, bottom), so a corner set reads as the
/// first of its edges in that order.
pub open spec fn anchor_from_bits_spec(bits: u32) -> Anchor {
    if anchor_contains(bits, ANCHOR_LEFT) {
        Anchor::Left
    } else if anchor_contains(bits, ANCHOR_RIGHT) {
        Anchor::Right
    } else if anchor_contains(bits, ANCHOR_TOP) {
        Anchor::Top
    } else if anchor_contains(bits, ANCHOR_BOTTOM) {
        Anchor::Bottom
    } else if anchor_contains(bits, ANCHOR_TOP) && anchor_contains(bits, ANCHOR_LEFT) {
        Anchor::TopLeft
    } else if anchor_contains(bits, ANCHOR_TOP) && anchor_contains(bits, ANCHOR_RIGHT) {
        Anchor::TopRight
    } else if anchor_contains(bits, ANCHOR_BOTTOM) && anchor_contains(bits, ANCHOR_LEFT) {
        Anchor::BottomLeft
    } else if anchor_contains(bits, ANCHOR_BOTTOM) && anchor_contains(bits, ANCHOR_RIGHT) {
        Anchor::BottomRight
    } else {
        Anchor::Center
    }
}

/// The layer-shell anchor bit set of an anchor.
pub open spec fn anchor_bits_spec(a: Anchor) -> u32 {
    match a {
        Anchor::Left => ANCHOR_LEFT,
        Anchor::Right => ANCHOR_RIGHT,
        Anchor::Top => ANCHOR_TOP,
        Anchor::Bottom => ANCHOR_BOTTOM,
        Anchor::TopLeft => 5u32,
        Anchor::TopRight => 9u32,
        Anchor::BottomLeft => 6u32,
        Anchor::BottomRight => 10u32,
        Anchor::Center => 0u32,
    }
}

impl Anchor {
    /// Reads a layer-shell anchor bit set as an anchor.
    pub fn from_bits(bits: u32) -> (a: Anchor)
        ensures
            a == anchor_from_bits_spec(bits),
    {
        let has = |flag: u32| -> (b: bool)
            ensures
                b == anchor_contains(bits, flag),
            { bits & flag == flag };
        if has(ANCHOR_LEFT) {
            Anchor::Left
        } else if has(ANCHOR_RIGHT) {
            Anchor::Right
        } else if has(ANCHOR_TOP) {
            Anchor::Top
        } else if has(ANCHOR_BOTTOM) {
            Anchor::Bottom
        } else if has(ANCHOR_TOP) && has(ANCHOR_LEFT) {
            Anchor::TopLeft
        } else if has(ANCHOR_TOP) && has(ANCHOR_RIGHT) {
            Anchor::TopRight
        } else if has(ANCHOR_BOTTOM) && has(ANCHOR_LEFT) {
            Anchor::BottomLeft
        } else if has(ANCHOR_BOTTOM) && has(ANCHOR_RIGHT) {
            Anchor::BottomRight
        } else {
            Anchor::Center
        }
    }

    /// The layer-shell anchor bit set of this anchor.
    pub fn to_bits(self) -> (bits: u32)
        ensures
            bits == anchor_bits_spec(self),
    {
        let mut anchor: u32 = 0;
        match self {
            Anchor::Left => {
                anchor = anchor | ANCHOR_LEFT;
            },
            Anchor::Right => {
                anchor = anchor | ANCHOR_RIGHT;
            },
            Anchor::Top => {
                anchor = anchor | ANCHOR_TOP;
            },
            Anchor::Bottom => {
                anchor = anchor | ANCHOR_BOTTOM;
            },
            Anchor::TopLeft => {
                anchor = anchor | ANCHOR_TOP;
                anchor = anchor | ANCHOR_LEFT;
            },
            Anchor::TopRight => {
                anchor = anchor | ANCHOR_TOP;
                anchor = anchor | ANCHOR_RIGHT;
            },
            Anchor::BottomLeft => {
                anchor = anchor | ANCHOR_BOTTOM;
                anchor = anchor | ANCHOR_LEFT;
            },
            Anchor::BottomRight => {
                anchor = anchor | ANCHOR_BOTTOM;
                anchor = anchor | ANCHOR_RIGHT;
            },
            Anchor::Center => {},
        }
        assert(0u32 | 4u32 == 4u32 && 0u32 | 8u32 == 8u32 && 0u32 | 1u32 == 1u32 && 0u32 | 2u32
            == 2u32) by (bit_vector);
        assert(1u32 | 4u32 == 5u32 && 1u32 | 8u32 == 9u32 && 2u32 | 4u32 == 6u32 && 2u32 | 8u32
            == 10u32) by (bit_vector);
        anchor
    }
}

/// An edge anchor read back from its own bit set is the same anchor; so is
/// `Center`. (A corner reads back as the edge that is tested first.)
pub proof fn lemma_anchor_edge_round_trip(a: Anchor)
    requires
        a == Anchor::Left || a == Anchor::Right || a == Anchor::Top || a == Anchor::Bottom || a
            == Anchor::Center,
    ensures
        anchor_from_bits_spec(anchor_bits_spec(a)) == a,
{
    assert(4u32 & 4u32 == 4u32 && 8u32 & 4u32 != 4u32 && 1u32 & 4u32 != 4u32 && 2u32 & 4u32
        != 4u32 && 0u32 & 4u32 != 4u32) by (bit_vector);
    assert(8u32 & 8u32 == 8u32 && 1u32 & 8u32 != 8u32 && 2u32 & 8u32 != 8u32 && 0u32 & 8u32
        != 8u32) by (bit_vector);
    assert(1u32 & 1u32 == 1u32 && 2u32 & 1u32 != 1u32 && 0u32 & 1u32 != 1u32) by (bit_vector);
    assert(2u32 & 2u32 == 2u32 && 0u32 & 2u32 != 2u32) by (bit_vector);
}


/// The stacking layer of a layer-shell surface.
#[derive(Clone, Copy, Debug, PartialEq, Eq, Structural)]
pub enum Layer {
    /// below all other surfaces
    Background,
    /// above the background, below windows
    Bottom,
    /// above windows
    Top,
    /// above everything, including fullscreen windows
    Overlay,
}

/// How a layer-shell surface takes keyboard focus.
#[derive(Clone, Copy, Debug, PartialEq, Eq, Structural)]
pub enum KeyboardInteractivity {
    /// never takes keyboard focus
    NoFocus,
    /// takes keyboard focus exclusively
    Exclusive,
    /// takes keyboard focus when the user gives it
    OnDemand,
}

/// The layer-shell protocol value of a layer.
pub open spec fn layer_value_spec(l: Layer) -> u32 {
    match l {
        Layer::Background => 0,
        Layer::Bottom => 1,
        Layer::Top => 2,
        Layer::Overlay => 3,
    }
}

/// The layer-shell protocol value of a keyboard interactivity.
pub open spec fn keyboard_interactivity_value_spec(k: KeyboardInteractivity) -> u32 {
    match k {
        KeyboardInteractivity::NoFocus => 0,
        KeyboardInteractivity::Exclusive => 1,
        KeyboardInteractivity::OnDemand => 2,
    }
}

impl Layer {
    /// The layer-shell protocol value of this layer.
    pub fn value(self) -> (v: u32)
        ensures
            v == layer_value_spec(self),
    {
        match self {
            Layer::Background => 0,
            Layer::Bottom => 1,
            Layer::Top => 2,
            Layer::Overlay => 3,
        }
    }
}

impl KeyboardInteractivity {
    /// The layer-shell protocol value of this keyboard interactivity.
    pub fn value(self) -> (v: u32)
        ensures
            v == keyboard_interactivity_value_spec(self),
    {
        match self {
            KeyboardInteractivity::NoFocus => 0,
            KeyboardInteractivity::Exclusive => 1,
            KeyboardInteractivity::OnDemand => 2,
        }
    }
}

/// `i` is the first position of `entries` whose name is `name`.
pub open spec fn is_first_named<C>(entries: Seq<(String, C)>, name: Seq<char>, i: int) -> bool {
    &&& 0 <= i < entries.len()
    &&& entries[i].0@ == name
    &&& forall|j: int| 0 <= j < i ==> entries[j].0@ != name
}

/// The position of the first entry named `name`, if there is one.
pub open spec fn first_named<C>(entries: Seq<(String, C)>, name: Seq<char>) -> Option<int> {
    if exists|i: int| is_first_named(entries, name, i) {
        Some(choose|i: int| is_first_named(entries, name, i))
    } else {
        None
    }
}

/// The value stored under `name`, if any (the first such entry).
pub open spec fn named_value<C>(entries: Seq<(String, C)>, name: Seq<char>) -> Option<C> {
    match first_named(entries, name) {
        Some(i) => Some(entries[i].1),
        None => None,
    }
}

proof fn lemma_first_named_unique<C>(entries: Seq<(String, C)>, name: Seq<char>, i: int)
    requires
        is_first_named(entries, name, i),
    ensures
        first_named(entries, name) == Some(i),
{
    let k = choose|k: int| is_first_named(entries, name, k);
    assert(is_first_named(entries, name, k));
    if k < i {
        assert(entries[k].0@ != name);
    } else if i < k {
        assert(entries[i].0@ != name);
    }
}

/// Finds the position of the first entry named `name`.
pub fn find_named<C>(entries: &Vec<(String, C)>, name: &str) -> (res: Option<usize>)
    ensures
        match res {
            Some(i) => first_named(entries@, name@) == Some(i as int),
            None => first_named(entries@, name@) is None,
        },
{
    let key = name.to_owned();
    let mut i: usize = 0;
    while i < entries.len()
        invariant
            i <= entries@.len(),
            key@ == name@,
            forall|j: int| 0 <= j < i ==> entries@[j].0@ != name@,
        decreases entries@.len() - i,
    {
        if entries[i].0 == key {
            proof {
                lemma_first_named_unique(entries@, name@, i as int);
            }
            return Some(i);
        }
        i = i + 1;
    }
    proof {
        if exists|k: int| is_first_named(entries@, name@, k) {
            let k = choose|k: int| is_first_named(entries@, name@, k);
            assert(entries@[k].0@ != name@);
        }
    }
    None
}

/// Takes the value stored under `name` out of a list of named entries.
pub fn take_named<C>(entries: Vec<(String, C)>, name: &str) -> (res: Option<C>)
    ensures
        res == named_value(entries@, name@),
{
    let mut entries = entries;
    match find_named(&entries, name) {
        Some(i) => {
            let (_, c) = entries.remove(i);
            Some(c)
        },
        None => None,
    }
}

/// The entries after storing `value` under `name`: the first entry of that
/// name gets the value, or a new entry is added at the end.
pub open spec fn stored_named<C>(entries: Seq<(String, C)>, name: Seq<char>, value: C) -> Seq<
    (Seq<char>, C),
> {
    let views = entries.map_values(|e: (String, C)| (e.0@, e.1));
    match first_named(entries, name) {
        Some(i) => views.update(i, (name, value)),
        None => views.push((name, value)),
    }
}

/// The names and values of a list of named entries.
pub open spec fn named_views<C>(entries: Seq<(String, C)>) -> Seq<(Seq<char>, C)> {
    entries.map_values(|e: (String, C)| (e.0@, e.1))
}

/// Stores `value` under `name` in a list of named entries.
pub fn store_named<C>(entries: Vec<(String, C)>, name: &str, value: C) -> (res: Vec<(String, C)>)
    ensures
        named_views(res@) == stored_named(entries@, name@, value),
{
    let mut entries = entries;
    let ghost old_entries = entries@;
    match find_named(&entries, name) {
        Some(i) => {
            entries.set(i, (name.to_owned(), value));
        },
        None => {
            entries.push((name.to_owned(), value));
        },
    }
    assert(named_views(entries@) =~= stored_named(old_entries, name@, value));
    entries
}

proof fn lemma_no_named<C>(entries: Seq<(String, C)>, name: Seq<char>)
    requires
        first_named(entries, name) is None,
    ensures
        forall|j: int| 0 <= j < entries.len() ==> entries[j].0@ != name,
{
    assert forall|j: int| 0 <= j < entries.len() implies entries[j].0@ != name by {
        if entries[j].0@ == name {
            lemma_least_named(entries, name, j);
        }
    }
}

proof fn lemma_least_named<C>(entries: Seq<(String, C)>, name: Seq<char>, j: int)
    requires
        0 <= j < entries.len(),
        entries[j].0@ == name,
    ensures
        exists|i: int| is_first_named(entries, name, i),
    decreases j,
{
    if forall|m: int| 0 <= m < j ==> entries[m].0@ != name {
        assert(is_first_named(entries, name, j));
    } else {
        let m = choose|m: int| 0 <= m < j && entries[m].0@ == name;
        lemma_least_named(entries, name, m);
    }
}

/// Loading a name from stored entries gives back what was last stored
/// under that name, and what is stored under other names is unchanged.
pub proof fn lemma_load_after_store<C>(
    entries: Seq<(String, C)>,
    stored: Seq<(String, C)>,
    name: Seq<char>,
    value: C,
    other: Seq<char>,
)
    requires
        named_views(stored) == stored_named(entries, name, value),
    ensures
        named_value(stored, name) == Some(value),
        other != name ==> named_value(stored, other) == named_value(entries, other),
{
    let views = entries.map_values(|e: (String, C)| (e.0@, e.1));
    assert(named_views(stored).len() == stored.len());
    assert forall|j: int| 0 <= j < stored.len() implies (stored[j].0@, stored[j].1) == #[trigger] named_views(
        stored,
    )[j] by {}
    match first_named(entries, name) {
        Some(i) => {
            assert(is_first_named(entries, name, i));
            assert(named_views(stored)[i] == (name, value));
            assert(stored[i].0@ == name);
            assert forall|j: int| 0 <= j < i implies stored[j].0@ != name by {
                assert(named_views(stored)[j] == views[j]);
            }
            assert(is_first_named(stored, name, i));
            lemma_first_named_unique(stored, name, i);
        },
        None => {
            lemma_no_named(entries, name);
            let n = entries.len() as int;
            assert(named_views(stored)[n] == (name, value));
            assert(stored[n].0@ == name);
            assert forall|j: int| 0 <= j < n implies stored[j].0@ != name by {
                assert(named_views(stored)[j] == views[j]);
            }
            assert(is_first_named(stored, name, n));
            lemma_first_named_unique(stored, name, n);
        },
    }
    assert forall|j: int| 0 <= j < stored.len() implies stored[j].0@ == name || (j < entries.len()
        && stored[j].0@ == entries[j].0@ && stored[j].1 == entries[j].1) by {
        assert(named_views(stored)[j] == (stored[j].0@, stored[j].1));
        if j < entries.len() {
            assert(views[j] == (entries[j].0@, entries[j].1));
        }
    }
    if other != name {
        match first_named(entries, other) {
            Some(k) => {
                assert(is_first_named(entries, other, k));
                assert(named_views(stored)[k] == views[k]) by {
                    match first_named(entries, name) {
                        Some(i) => {
                            assert(is_first_named(entries, name, i));
                            assert(k != i);
                        },
                        None => {},
                    }
                }
                assert(named_views(stored)[k] == (stored[k].0@, stored[k].1));
                assert forall|j: int| 0 <= j < k implies stored[j].0@ != other by {
                    assert(stored[j].0@ == name || (j < entries.len() && stored[j].0@
                        == entries[j].0@));
                }
                assert(is_first_named(stored, other, k));
                lemma_first_named_unique(stored, other, k);
            },
            None => {
                lemma_no_named(entries, other);
                assert forall|j: int| 0 <= j < stored.len() implies stored[j].0@ != other by {
                    assert(stored[j].0@ == name || (j < entries.len() && stored[j].0@
                        == entries[j].0@));
                }
                if exists|i: int| is_first_named(stored, other, i) {
                    let i = choose|i: int| is_first_named(stored, other, i);
                    assert(stored[i].0@ == other);
                }
            },
        }
    }
}

/// Configuration of the simple wrapper.
#[derive(Debug)]
pub struct SimpleWrapperConfig {
    /// name of the wrapper
    pub name: String,
    /// edge(s) that the layer surface is anchored to
    pub anchor: Anchor,
    /// layer of the layer surface
    pub layer: Layer,
    /// keyboard interactivity of the layer surface
    pub keyboard_interactivity: KeyboardInteractivity,
    /// range (`start`, `end`) that the width is held to
    pub width_range: Option<(u32, u32)>,
    /// range (`start`, `end`) that the height is held to
    pub height_range: Option<(u32, u32)>,
    /// name of the output to show the surface on
    pub output: Option<String>,
    /// the wrapped command
    pub command: String,
}

impl SimpleWrapperConfig {
    /// The default configuration: an unnamed, centered surface on the top
    /// layer that takes keyboard focus on demand, with no size ranges, no
    /// preferred output and no command.
    pub open spec fn is_default(&self) -> bool {
        &&& self.name@ == Seq::<char>::empty()
        &&& self.anchor == Anchor::Center
        &&& self.layer == Layer::Top
        &&& self.keyboard_interactivity == KeyboardInteractivity::OnDemand
        &&& self.width_range is None
        &&& self.height_range is None
        &&& self.output is None
        &&& self.command@ == Seq::<char>::empty()
    }
}

impl Default for SimpleWrapperConfig {
    fn default() -> (c: Self)
        ensures
            c.is_default(),
    {
        SimpleWrapperConfig {
            name: String::new(),
            anchor: Anchor::Center,
            layer: Layer::Top,
            keyboard_interactivity: KeyboardInteractivity::OnDemand,
            width_range: None,
            height_range: None,
            output: None,
            command: String::new(),
        }
    }
}

impl SimpleWrapperConfig {
    /// The configuration named `name` among the stored `configs`, or the
    /// default configuration when none has that name.
    pub fn load(name: &str, configs: Vec<(String, SimpleWrapperConfig)>) -> (c: Self)
        ensures
            match named_value(configs@, name@) {
                Some(found) => c == found,
                None => c.is_default(),
            },
    {
        match take_named(configs, name) {
            Some(c) => c,
            None => SimpleWrapperConfig::default(),
        }
    }

    /// The configurations to store when writing under `name`: the stored
    /// `configs` with a default configuration under `name`.
    pub fn write(&self, name: &str, configs: Vec<(String, SimpleWrapperConfig)>) -> (res: Vec<
        (String, SimpleWrapperConfig),
    >)
        ensures
            exists|d: SimpleWrapperConfig|
                #![trigger d.is_default()]
                d.is_default() && named_views(res@) == stored_named(configs@, name@, d),
    {
        let d = SimpleWrapperConfig::default();
        let ghost dd = d;
        let res = store_named(configs, name, d);
        assert(dd.is_default());
        res
    }

    /// get constraints for the thickness of the panel bar
    pub fn dimensions(&self) -> (res: (Option<(u32, u32)>, Option<(u32, u32)>))
        ensures
            res == (self.width_range, self.height_range),
    {
        (self.width_range, self.height_range)
    }

    /// The wrapped command.
    pub fn applet(&self) -> (res: String)
        ensures
            res@ == self.command@,
    {
        self.command.clone()
    }

    /// The name of the output to show the surface on.
    pub fn output(&self) -> (res: Option<String>)
        ensures
            match (res, self.output) {
                (Some(a), Some(b)) => a@ == b@,
                (None, None) => true,
                _ => false,
            },
    {
        match &self.output {
            Some(o) => Some(o.clone()),
            None => None,
        }
    }

    /// The layer-shell protocol value of the configured layer.
    pub fn layer(&self) -> (v: u32)
        ensures
            v == layer_value_spec(self.layer),
    {
        self.layer.value()
    }

    /// The layer-shell protocol value of the configured keyboard interactivity.
    pub fn keyboard_interactivity(&self) -> (v: u32)
        ensures
            v == keyboard_interactivity_value_spec(self.keyboard_interactivity),
    {
        self.keyboard_interactivity.value()
    }
}


/// Which output(s) a panel configuration asks for.
#[derive(Debug)]
pub enum PanelOutput {
    /// let the desktop compositor choose
    Auto,
    /// every output
    All,
    /// the output with this name
    Name(String),
}

/// Two output choices that say the same thing.
pub open spec fn same_panel_output(a: PanelOutput, b: PanelOutput) -> bool {
    match (a, b) {
        (PanelOutput::Auto, PanelOutput::Auto) => true,
        (PanelOutput::All, PanelOutput::All) => true,
        (PanelOutput::Name(x), PanelOutput::Name(y)) => x@ == y@,
        _ => false,
    }
}

/// Configuration of the xdg-shell wrapper.
#[derive(Debug)]
pub struct Config {
    /// edge(s) that the layer surface is anchored to
    pub anchor: Anchor,
    /// layer of the layer surface
    pub layer: Layer,
    /// keyboard interactivity of the layer surface
    pub keyboard_interactivity: KeyboardInteractivity,
    /// range (`start`, `end`) that the width is held to
    pub width_range: Option<(u32, u32)>,
    /// range (`start`, `end`) that the height is held to
    pub height_range: Option<(u32, u32)>,
    /// output(s) to show the surface on
    pub output: PanelOutput,
    /// the wrapped command
    pub command: String,
}

/// Weight with which the wrapped command is placed in the center of a panel.
pub const CENTER_PLUGIN_WEIGHT: u32 = 1000;

impl Config {
    /// The default configuration: centered, on the top layer, taking keyboard
    /// focus on demand, with no size ranges, output chosen by the desktop
    /// compositor, and no command.
    pub open spec fn is_default(&self) -> bool {
        &&& self.anchor == Anchor::Center
        &&& self.layer == Layer::Top
        &&& self.keyboard_interactivity == KeyboardInteractivity::OnDemand
        &&& self.width_range is None
        &&& self.height_range is None
        &&& self.output is Auto
        &&& self.command@ == Seq::<char>::empty()
    }
}

impl Default for Config {
    fn default() -> (c: Self)
        ensures
            c.is_default(),
    {
        Config {
            anchor: Anchor::Center,
            layer: Layer::Top,
            keyboard_interactivity: KeyboardInteractivity::OnDemand,
            width_range: None,
            height_range: None,
            output: PanelOutput::Auto,
            command: String::new(),
        }
    }
}

impl Config {
    /// The configuration named `name` among the stored `configs`, or the
    /// default configuration when none has that name.
    pub fn load(name: &str, configs: Vec<(String, Config)>) -> (c: Self)
        ensures
            match named_value(configs@, name@) {
                Some(found) => c == found,
                None => c.is_default(),
            },
    {
        match take_named(configs, name) {
            Some(c) => c,
            None => Config::default(),
        }
    }

    /// The configurations to store when writing under `name`: the stored
    /// `configs` with a default configuration under `name`.
    pub fn write(&self, name: &str, configs: Vec<(String, Config)>) -> (res: Vec<(String, Config)>)
        ensures
            exists|d: Config|
                #![trigger d.is_default()]
                d.is_default() && named_views(res@) == stored_named(configs@, name@, d),
    {
        let d = Config::default();
        let ghost dd = d;
        let res = store_named(configs, name, d);
        assert(dd.is_default());
        res
    }

    /// The commands placed in the center of the panel, with their weights:
    /// just the wrapped command.
    pub fn plugins_center(&self) -> (res: Option<Vec<(String, u32)>>)
        ensures
            res matches Some(v) && v@.len() == 1 && v@[0].0@ == self.command@ && v@[0].1
                == CENTER_PLUGIN_WEIGHT,
    {
        let mut v: Vec<(String, u32)> = Vec::new();
        v.push((self.command.clone(), CENTER_PLUGIN_WEIGHT));
        Some(v)
    }

    /// The output(s) to show the surface on.
    pub fn output(&self) -> (res: PanelOutput)
        ensures
            same_panel_output(res, self.output),
    {
        match &self.output {
            PanelOutput::Auto => PanelOutput::Auto,
            PanelOutput::All => PanelOutput::All,
            PanelOutput::Name(n) => PanelOutput::Name(n.clone()),
        }
    }

    /// The configured anchor.
    pub fn anchor(&self) -> (a: Anchor)
        ensures
            a == self.anchor,
    {
        self.anchor
    }

    /// Padding around the wrapped surface: none.
    pub fn padding(&self) -> (p: u32)
        ensures
            p == 0,
    {
        0
    }

    /// The layer-shell protocol value of the configured layer.
    pub fn layer(&self) -> (v: u32)
        ensures
            v == layer_value_spec(self.layer),
    {
        self.layer.value()
    }

    /// The layer-shell protocol value of the configured keyboard interactivity.
    pub fn keyboard_interactivity(&self) -> (v: u32)
        ensures
            v == keyboard_interactivity_value_spec(self.keyboard_interactivity),
    {
        self.keyboard_interactivity.value()
    }

    /// get constraints for the thickness of the panel bar (the same on every
    /// output)
    pub fn get_dimensions(&self, output_dims: (u32, u32)) -> (res: (
        Option<(u32, u32)>,
        Option<(u32, u32)>,
    ))
        ensures
            res == (self.width_range, self.height_range),
    {
        (self.width_range, self.height_range)
    }
}


/// How the layer surfaces of a wrapper are laid out.
#[derive(Clone, Copy, Debug)]
pub struct LayerLayout {
    /// edge(s) the layer surfaces are anchored to
    pub anchor: Anchor,
    /// layer of the layer surfaces
    pub layer: Layer,
    /// keyboard interactivity of the layer surfaces
    pub keyboard_interactivity: KeyboardInteractivity,
    /// smallest size a layer surface takes (1x1 when unset)
    pub min_dimensions: Option<(u32, u32)>,
    /// largest size a layer surface takes
    pub max_dimensions: Option<(u32, u32)>,
}

/// The requests that set up a layer surface on the desktop compositor.
#[derive(Clone, Copy, Debug)]
pub struct LayerSurfaceSetup {
    /// layer-shell protocol value of the layer
    pub layer: u32,
    /// layer-shell anchor bit set
    pub anchor: u32,
    /// layer-shell protocol value of the keyboard interactivity
    pub keyboard_interactivity: u32,
    /// size asked for
    pub size: (u32, u32),
}

/// The setup of a layer surface of size `size` under `layout`.
pub open spec fn layer_setup_spec(layout: LayerLayout, size: (u32, u32)) -> LayerSurfaceSetup {
    LayerSurfaceSetup {
        layer: layer_value_spec(layout.layer),
        anchor: anchor_bits_spec(layout.anchor),
        keyboard_interactivity: keyboard_interactivity_value_spec(layout.keyboard_interactivity),
        size,
    }
}

impl LayerLayout {
    /// The requests that set up a layer surface of size `size`.
    pub fn setup(&self, size: (u32, u32)) -> (s: LayerSurfaceSetup)
        ensures
            s == layer_setup_spec(*self, size),
    {
        LayerSurfaceSetup {
            layer: self.layer.value(),
            anchor: self.anchor.to_bits(),
            keyboard_interactivity: self.keyboard_interactivity.value(),
            size,
        }
    }
}

/// Configuration of the xdg-shell wrapper binary.
#[derive(Debug)]
pub struct XdgWrapperConfig {
    /// how the layer surfaces are laid out
    pub layout: LayerLayout,
    /// name of the output to show the surfaces on
    pub output: Option<String>,
    /// the wrapped command
    pub command: String,
}

impl XdgWrapperConfig {
    /// The default configuration: centered, on the top layer, taking keyboard
    /// focus on demand, no size limits, no preferred output and no command.
    pub open spec fn is_default(&self) -> bool {
        &&& self.layout == LayerLayout {
            anchor: Anchor::Center,
            layer: Layer::Top,
            keyboard_interactivity: KeyboardInteractivity::OnDemand,
            min_dimensions: None,
            max_dimensions: None,
        }
        &&& self.output is None
        &&& self.command@ == Seq::<char>::empty()
    }
}

impl Default for XdgWrapperConfig {
    fn default() -> (c: Self)
        ensures
            c.is_default(),
    {
        XdgWrapperConfig {
            layout: LayerLayout {
                anchor: Anchor::Center,
                layer: Layer::Top,
                keyboard_interactivity: KeyboardInteractivity::OnDemand,
                min_dimensions: None,
                max_dimensions: None,
            },
            output: None,
            command: String::new(),
        }
    }
}

impl XdgWrapperConfig {
    /// The configuration named `name` among the stored `configs`, or the
    /// default configuration when none has that name.
    pub fn load(name: &str, configs: Vec<(String, XdgWrapperConfig)>) -> (c: Self)
        ensures
            match named_value(configs@, name@) {
                Some(found) => c == found,
                None => c.is_default(),
            },
    {
        match take_named(configs, name) {
            Some(c) => c,
            None => XdgWrapperConfig::default(),
        }
    }
}

} // verus!
