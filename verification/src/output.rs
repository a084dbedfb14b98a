//! Outputs of the desktop compositor, mirrored on the embedded compositor:
//! which outputs a configuration asks for, how an output's description is
//! carried over, and which output the wrapper's surface is shown on as
//! outputs come and go.

use vstd::prelude::*;

use crate::seat::first_where;

verus! {

/// Which outputs a wrapper configuration asks for.
#[derive(Debug)]
pub enum WrapperOutput {
    /// every output
    All,
    /// the outputs with these names
    Name(Vec<String>),
}

/// Which outputs a wrapper configuration asks for, as a mathematical value.
pub enum WrapperOutputView {
    /// every output
    All,
    /// the outputs with these names
    Name(Seq<Seq<char>>),
}

impl View for WrapperOutput {
    type V = WrapperOutputView;

    open spec fn view(&self) -> WrapperOutputView {
        match self {
            WrapperOutput::All => WrapperOutputView::All,
            WrapperOutput::Name(list) => WrapperOutputView::Name(list@.map_values(|s: String| s@)),
        }
    }
}

/// An output named `name` (if it has a name) is one that `outputs` asks for.
pub open spec fn output_configured(outputs: WrapperOutputView, name: Option<Seq<char>>) -> bool {
    match name {
        Some(n) => match outputs {
            WrapperOutputView::All => true,
            WrapperOutputView::Name(list) => list.contains(n),
        },
        None => false,
    }
}

/// Whether the output named `name` is one that `outputs` asks for.
pub fn output_is_configured(outputs: &WrapperOutput, name: Option<&str>) -> (res: bool)
    ensures
        res == output_configured(
            outputs@,
            match name {
                Some(n) => Some(n@),
                None => None,
            },
        ),
{
    let n = match name {
        Some(n) => n.to_owned(),
        None => {
            return false;
        },
    };
    match outputs {
        WrapperOutput::All => true,
        WrapperOutput::Name(list) => {
            let ghost names = list@.map_values(|s: String| s@);
            let mut i: usize = 0;
            while i < list.len()
                invariant
                    i <= list@.len(),
                    names == list@.map_values(|s: String| s@),
                    outputs@ == WrapperOutputView::Name(names),
                    name matches Some(m) && n@ == m@,
                    forall|j: int| 0 <= j < i ==> names[j] != n@,
                decreases list@.len() - i,
            {
                if list[i] == n {
                    assert(names[i as int] == n@);
                    return true;
                }
                i = i + 1;
            }
            assert(!names.contains(n@));
            false
        },
    }
}

/// Subpixel layouts of an output.
#[derive(Clone, Copy, Debug, PartialEq, Eq, Structural)]
pub enum Subpixel {
    /// unknown layout
    Unknown,
    /// not a subpixel display
    NoGeometry,
    /// horizontal red, green, blue
    HorizontalRgb,
    /// horizontal blue, green, red
    HorizontalBgr,
    /// vertical red, green, blue
    VerticalRgb,
    /// vertical blue, green, red
    VerticalBgr,
}

/// The subpixel layout of a raw `wl_output` subpixel value.
pub open spec fn subpixel_spec(raw: u32) -> Subpixel {
    if raw == 1 {
        Subpixel::NoGeometry
    } else if raw == 2 {
        Subpixel::HorizontalRgb
    } else if raw == 3 {
        Subpixel::HorizontalBgr
    } else if raw == 4 {
        Subpixel::VerticalRgb
    } else if raw == 5 {
        Subpixel::VerticalBgr
    } else {
        Subpixel::Unknown
    }
}

/// The subpixel layout of a raw `wl_output` subpixel value.
pub fn subpixel_of(raw: u32) -> (res: Subpixel)
    ensures
        res == subpixel_spec(raw),
{
    if raw == 1 {
        Subpixel::NoGeometry
    } else if raw == 2 {
        Subpixel::HorizontalRgb
    } else if raw == 3 {
        Subpixel::HorizontalBgr
    } else if raw == 4 {
        Subpixel::VerticalRgb
    } else if raw == 5 {
        Subpixel::VerticalBgr
    } else {
        Subpixel::Unknown
    }
}

/// A mode of a desktop output.
#[derive(Clone, Copy, Debug, PartialEq, Eq, Structural)]
pub struct ModeInfo {
    /// width in pixels
    pub width: i32,
    /// height in pixels
    pub height: i32,
    /// refresh rate in mHz
    pub refresh: i32,
    /// the output prefers this mode
    pub preferred: bool,
    /// the output is in this mode
    pub current: bool,
}

/// A change made to the embedded output for a mode.
#[derive(Clone, Copy, Debug, PartialEq, Eq, Structural)]
pub enum ModeOp {
    /// mark the mode (width, height, refresh) preferred
    SetPreferred { width: i32, height: i32, refresh: i32 },
    /// make the mode current, untransformed at scale 1, at the output's location
    SetCurrent { width: i32, height: i32, refresh: i32 },
    /// add the mode
    Add { width: i32, height: i32, refresh: i32 },
}

/// The changes for one mode: preferred and current modes are marked so, and
/// every mode is added.
pub open spec fn mode_ops_of(m: ModeInfo) -> Seq<ModeOp> {
    let pref = if m.preferred {
        seq![ModeOp::SetPreferred { width: m.width, height: m.height, refresh: m.refresh }]
    } else {
        Seq::empty()
    };
    let cur = if m.current {
        seq![ModeOp::SetCurrent { width: m.width, height: m.height, refresh: m.refresh }]
    } else {
        Seq::empty()
    };
    pref + cur + seq![ModeOp::Add { width: m.width, height: m.height, refresh: m.refresh }]
}

/// The changes for the modes, in order.
pub open spec fn mode_ops_spec(modes: Seq<ModeInfo>) -> Seq<ModeOp>
    decreases modes.len(),
{
    if modes.len() == 0 {
        Seq::empty()
    } else {
        mode_ops_spec(modes.drop_last()) + mode_ops_of(modes.last())
    }
}

/// The changes made to an embedded output for the modes of a desktop output.
pub fn mode_ops(modes: &Vec<ModeInfo>) -> (ops: Vec<ModeOp>)
    ensures
        ops@ == mode_ops_spec(modes@),
{
    let mut ops: Vec<ModeOp> = Vec::new();
    let mut i: usize = 0;
    while i < modes.len()
        invariant
            i <= modes@.len(),
            ops@ == mode_ops_spec(modes@.subrange(0, i as int)),
        decreases modes@.len() - i,
    {
        let m = modes[i];
        proof {
            assert(modes@.subrange(0, i + 1).drop_last() =~= modes@.subrange(0, i as int));
            assert(modes@.subrange(0, i + 1).last() == m);
        }
        let ghost before = ops@;
        if m.preferred {
            ops.push(ModeOp::SetPreferred { width: m.width, height: m.height, refresh: m.refresh });
        }
        if m.current {
            ops.push(ModeOp::SetCurrent { width: m.width, height: m.height, refresh: m.refresh });
        }
        ops.push(ModeOp::Add { width: m.width, height: m.height, refresh: m.refresh });
        assert(ops@ =~= before + mode_ops_of(m));
        i = i + 1;
    }
    assert(modes@.subrange(0, i as int) =~= modes@);
    ops
}

/// The changes for one mode in the event-callback generation: a preferred
/// mode is marked preferred, any other is added.
pub open spec fn plain_mode_op(m: ModeInfo) -> ModeOp {
    if m.preferred {
        ModeOp::SetPreferred { width: m.width, height: m.height, refresh: m.refresh }
    } else {
        ModeOp::Add { width: m.width, height: m.height, refresh: m.refresh }
    }
}

/// The changes made to an embedded output for the modes of a desktop output
/// in the event-callback generation, one per mode.
pub fn plain_mode_ops(modes: &Vec<ModeInfo>) -> (ops: Vec<ModeOp>)
    ensures
        ops@ == modes@.map_values(|m: ModeInfo| plain_mode_op(m)),
{
    let mut ops: Vec<ModeOp> = Vec::new();
    let mut i: usize = 0;
    while i < modes.len()
        invariant
            i <= modes@.len(),
            ops@ == modes@.subrange(0, i as int).map_values(|m: ModeInfo| plain_mode_op(m)),
        decreases modes@.len() - i,
    {
        let m = modes[i];
        let op = if m.preferred {
            ModeOp::SetPreferred { width: m.width, height: m.height, refresh: m.refresh }
        } else {
            ModeOp::Add { width: m.width, height: m.height, refresh: m.refresh }
        };
        ops.push(op);
        assert(ops@ =~= modes@.subrange(0, i + 1).map_values(|m: ModeInfo| plain_mode_op(m)));
        i = i + 1;
    }
    assert(modes@.subrange(0, i as int) =~= modes@);
    ops
}

/// A desktop output mirrored on the embedded compositor, with the id or
/// name it is known by.
#[derive(Clone, Copy, Debug, PartialEq, Eq, Structural)]
pub struct OutputGroup {
    /// id of the desktop output's description
    pub id: u32,
    /// id of the desktop output
    pub output: u64,
}

/// What the program does after an output event (`handle_output`).
#[derive(Debug)]
pub struct OutputWork {
    /// destroy the globals of these embedded outputs (by desktop output)
    pub destroyed: Vec<u64>,
    /// release the desktop output of the event
    pub release: bool,
    /// build the wrapper's surface on this desktop output
    pub create_on: Option<u64>,
    /// the modes given to the new embedded output, in order (none for an
    /// obsolete output)
    pub modes: Vec<ModeOp>,
}

/// The mirrored outputs after the output with description id `id` became
/// obsolete: the outputs of that id are removed, the others kept in order.
pub open spec fn groups_after_obsolete(groups: Seq<OutputGroup>, id: u32) -> Seq<OutputGroup> {
    groups.filter(|g: OutputGroup| g.id != id)
}

/// The outputs removed when the output with id `id` became obsolete.
pub open spec fn groups_dropped(groups: Seq<OutputGroup>, id: u32) -> Seq<u64> {
    groups.filter(|g: OutputGroup| g.id == id).map_values(|g: OutputGroup| g.output)
}

/// Splits the mirrored outputs by whether their id is `id`.
fn split_groups(groups: &Vec<OutputGroup>, id: u32) -> (res: (Vec<OutputGroup>, Vec<u64>))
    ensures
        res.0@ == groups_after_obsolete(groups@, id),
        res.1@ == groups_dropped(groups@, id),
{
    let ghost keep_p = |g: OutputGroup| g.id != id;
    let ghost drop_p = |g: OutputGroup| g.id == id;
    let mut kept: Vec<OutputGroup> = Vec::new();
    let mut dropped: Vec<u64> = Vec::new();
    let mut i: usize = 0;
    while i < groups.len()
        invariant
            i <= groups@.len(),
            keep_p == (|g: OutputGroup| g.id != id),
            drop_p == (|g: OutputGroup| g.id == id),
            kept@ == groups@.subrange(0, i as int).filter(keep_p),
            dropped@ == groups@.subrange(0, i as int).filter(drop_p).map_values(
                |g: OutputGroup| g.output,
            ),
        decreases groups@.len() - i,
    {
        let g = groups[i];
        let ghost pre = groups@.subrange(0, i as int);
        proof {
            assert(groups@.subrange(0, i + 1).drop_last() =~= pre);
            assert(groups@.subrange(0, i + 1).last() == g);
            reveal(Seq::filter);
        }
        if g.id != id {
            kept.push(g);
        } else {
            dropped.push(g.output);
            proof {
                assert(pre.filter(drop_p).push(g).map_values(|g: OutputGroup| g.output)
                    =~= pre.filter(drop_p).map_values(|g: OutputGroup| g.output).push(g.output));
            }
        }
        i = i + 1;
    }
    proof {
        assert(groups@.subrange(0, i as int) =~= groups@);
    }
    (kept, dropped)
}

/// An output event of the event-callback generation for the desktop output
/// `output` with description id `id` and modes `modes`: an obsolete output
/// drops the surface when that is on it, is removed from the mirrored
/// outputs (its embedded output destroyed) and released; a new output is
/// mirrored with its modes (see `plain_mode_op`). Then, with no surface, one
/// is built on the first mirrored output, tagged with `id`.
pub fn handle_output(
    groups: &mut Vec<OutputGroup>,
    surface: &mut Option<u32>,
    id: u32,
    output: u64,
    modes: &Vec<ModeInfo>,
    obsolete: bool,
) -> (work: OutputWork)
    ensures
        obsolete ==> work.modes@.len() == 0,
        !obsolete ==> work.modes@ == modes@.map_values(|m: ModeInfo| plain_mode_op(m)),
        ({
            let s1 = if obsolete && *old(surface) == Some(id) {
                None
            } else {
                *old(surface)
            };
            let g1 = if obsolete {
                groups_after_obsolete(old(groups)@, id)
            } else {
                old(groups)@.push(OutputGroup { id, output })
            };
            &&& final(groups)@ == g1
            &&& work.release == obsolete
            &&& work.destroyed@ == if obsolete {
                groups_dropped(old(groups)@, id)
            } else {
                Seq::empty()
            }
            &&& if s1 is None && g1.len() > 0 {
                work.create_on == Some(g1[0].output) && *final(surface) == Some(id)
            } else {
                work.create_on is None && *final(surface) == s1
            }
        }),
{
    let mut destroyed: Vec<u64> = Vec::new();
    if obsolete {
        match *surface {
            Some(t) => {
                if t == id {
                    *surface = None;
                }
            },
            None => {},
        }
        let (kept, dropped) = split_groups(groups, id);
        *groups = kept;
        destroyed = dropped;
    } else {
        groups.push(OutputGroup { id, output });
    }
    let mirrored = if obsolete {
        Vec::new()
    } else {
        plain_mode_ops(modes)
    };
    let mut create_on: Option<u64> = None;
    if surface.is_none() {
        if groups.len() > 0 {
            create_on = Some(groups[0].output);
            *surface = Some(id);
        }
    }
    OutputWork { destroyed, release: obsolete, create_on, modes: mirrored }
}

/// An output group of the renderer generation, known by output name.
#[derive(Debug)]
pub struct NamedOutput {
    /// name of the desktop output
    pub name: String,
    /// id of the desktop output
    pub output: u64,
}

/// The names and outputs of named output groups.
pub open spec fn named_output_views(s: Seq<NamedOutput>) -> Seq<(Seq<char>, u64)> {
    s.map_values(|o: NamedOutput| (o.name@, o.output))
}

/// Finds the first output group named `name`.
pub fn find_named_output(groups: &Vec<NamedOutput>, name: &str) -> (res: Option<usize>)
    ensures
        match res {
            Some(k) => first_where(
                named_output_views(groups@),
                |o: (Seq<char>, u64)| o.0 == name@,
            ) == Some(k as int) && k < groups@.len(),
            None => first_where(named_output_views(groups@), |o: (Seq<char>, u64)| o.0 == name@) is None,
        },
{
    let ghost vs = named_output_views(groups@);
    let key = name.to_owned();
    let ghost p = |o: (Seq<char>, u64)| o.0 == name@;
    let mut i: usize = 0;
    while i < groups.len()
        invariant
            i <= groups@.len(),
            vs == named_output_views(groups@),
            key@ == name@,
            p == (|o: (Seq<char>, u64)| o.0 == name@),
            forall|j: int| 0 <= j < i ==> !p(#[trigger] vs[j]),
        decreases groups@.len() - i,
    {
        if groups[i].name == key {
            proof {
                assert(crate::seat::is_first_where(vs, p, i as int));
                let k = choose|k: int| crate::seat::is_first_where(vs, p, k);
                assert(crate::seat::is_first_where(vs, p, k));
                if k < i {
                    assert(!p(vs[k]));
                } else if (i as int) < k {
                    assert(!p(vs[i as int]));
                }
            }
            return Some(i);
        }
        i = i + 1;
    }
    proof {
        if exists|k: int| crate::seat::is_first_where(vs, p, k) {
            let k = choose|k: int| crate::seat::is_first_where(vs, p, k);
            assert(p(vs[k]));
        }
    }
    None
}

/// What the renderer generation does after an output event.
#[derive(Debug)]
pub enum RendererOutputWork {
    /// build the renderer with this output (desktop output and name), if any
    Create(Option<(u64, String)>),
    /// move the renderer to this output, if any
    SetOutput(Option<(u64, String)>),
    /// leave the renderer
    Keep,
}

/// An output event of the renderer generation for the output named `name`,
/// with modes `modes`, `preferred` the configured output name and
/// `renderer_output` the name of the renderer's output (`None` when there is
/// no renderer; a renderer always has an output when an output goes away):
/// an obsolete output is removed from the mirrored outputs (its embedded
/// output destroyed); a new one is mirrored with its modes (see
/// `plain_mode_op`). The renderer is built when missing, with the first
/// mirrored output of the preferred name; otherwise it moves there when the
/// event was for the preferred output, or when the renderer was on the
/// obsolete output. Returns the destroyed outputs, the work and the modes of
/// the new embedded output.
pub fn handle_named_output(
    groups: &mut Vec<NamedOutput>,
    preferred: &str,
    renderer_output: Option<Option<&str>>,
    name: &str,
    output: u64,
    modes: &Vec<ModeInfo>,
    obsolete: bool,
) -> (res: (Vec<u64>, RendererOutputWork, Vec<ModeOp>))
    requires
        obsolete ==> !(renderer_output matches Some(None)),
    ensures
        obsolete ==> res.2@.len() == 0,
        !obsolete ==> res.2@ == modes@.map_values(|m: ModeInfo| plain_mode_op(m)),
        ({
            let before = named_output_views(old(groups)@);
            let after = if obsolete {
                before.filter(|o: (Seq<char>, u64)| o.0 != name@)
            } else {
                before.push((name@, output))
            };
            let needs_new = if obsolete {
                match renderer_output {
                    Some(r) => match r {
                        Some(rn) => rn@ == name@,
                        None => false,
                    },
                    None => false,
                }
            } else {
                name@ == preferred@
            };
            let target = first_where(after, |o: (Seq<char>, u64)| o.0 == preferred@);
            &&& named_output_views(final(groups)@) == after
            &&& res.1 is Keep ==> renderer_output is Some && !needs_new
            &&& match res.1 {
                RendererOutputWork::Create(t) | RendererOutputWork::SetOutput(t) => {
                    &&& (res.1 is Create) == (renderer_output is None)
                    &&& (res.1 is SetOutput) ==> needs_new
                    &&& match target {
                        Some(k) => t matches Some(p) && p.0 == after[k].1 && p.1@ == preferred@,
                        None => t is None,
                    }
                },
                RendererOutputWork::Keep => true,
            }
            &&& obsolete ==> res.0@ == before.filter(|o: (Seq<char>, u64)| o.0 == name@).map_values(
                |o: (Seq<char>, u64)| o.1,
            )
            &&& !obsolete ==> res.0@.len() == 0
        }),
{
    let ghost before = named_output_views(groups@);
    let key = name.to_owned();
    let mut destroyed: Vec<u64> = Vec::new();
    let needs_new: bool;
    if obsolete {
        needs_new = match renderer_output {
            Some(r) => match r {
                Some(rn) => rn.to_owned() == key,
                None => false,
            },
            None => false,
        };
        let ghost keep_p = |o: (Seq<char>, u64)| o.0 != name@;
        let ghost drop_p = |o: (Seq<char>, u64)| o.0 == name@;
        let mut kept: Vec<NamedOutput> = Vec::new();
        let mut i: usize = 0;
        while i < groups.len()
            invariant
                i <= groups@.len(),
                before == named_output_views(groups@),
                key@ == name@,
                keep_p == (|o: (Seq<char>, u64)| o.0 != name@),
                drop_p == (|o: (Seq<char>, u64)| o.0 == name@),
                named_output_views(kept@) == before.subrange(0, i as int).filter(keep_p),
                destroyed@ == before.subrange(0, i as int).filter(drop_p).map_values(
                    |o: (Seq<char>, u64)| o.1,
                ),
            decreases groups@.len() - i,
        {
            let ghost pre = before.subrange(0, i as int);
            let ghost e = before[i as int];
            proof {
                assert(before.subrange(0, i + 1).drop_last() =~= pre);
                assert(before.subrange(0, i + 1).last() == e);
                reveal(Seq::filter);
            }
            let same = groups[i].name == key;
            let o = groups[i].output;
            if !same {
                let n = groups[i].name.clone();
                let ghost kv = named_output_views(kept@);
                kept.push(NamedOutput { name: n, output: o });
                proof {
                    assert(named_output_views(kept@) =~= kv.push(e));
                }
            } else {
                destroyed.push(o);
                proof {
                    assert(pre.filter(drop_p).push(e).map_values(|o: (Seq<char>, u64)| o.1)
                        =~= pre.filter(drop_p).map_values(|o: (Seq<char>, u64)| o.1).push(o));
                }
            }
            i = i + 1;
        }
        proof {
            assert(before.subrange(0, i as int) =~= before);
        }
        *groups = kept;
    } else {
        needs_new = key == preferred.to_owned();
        groups.push(NamedOutput { name: key, output });
        proof {
            assert(named_output_views(groups@) =~= before.push((name@, output)));
        }
    }
    let target: Option<(u64, String)> = match find_named_output(groups, preferred) {
        Some(k) => Some((groups[k].output, preferred.to_owned())),
        None => None,
    };
    let work = match renderer_output {
        None => RendererOutputWork::Create(target),
        Some(_) => if needs_new {
            RendererOutputWork::SetOutput(target)
        } else {
            RendererOutputWork::Keep
        },
    };
    let mirrored = if obsolete {
        Vec::new()
    } else {
        plain_mode_ops(modes)
    };
    (destroyed, work, mirrored)
}

} // verus!
