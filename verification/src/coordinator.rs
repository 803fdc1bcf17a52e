//! The coordinator's decisions around the pipeline: which layout controls are
//! read each tick, how their values reach the layout views, in which order the
//! processors run, and the layouts kept with a project.
use std::sync::Arc;

use vstd::prelude::*;

use crate::float_bits::F64Bits;
use crate::ordering::{
    chars_lt, dedup_spec, lemma_chars_lt_irreflexive, dedup_strings, lemma_dedup_contents, lemma_dedup_sorted, sort_strings,
    stable_sort_by_key, strictly_sorted_chars, string_views,
};
use crate::path_map::{
    PathMap, distinct_paths, lemma_pairs_map_dom, lemma_pairs_map_value, maps_equivalent, pairs_map,
};
use crate::value::ViewValue;
use crate::views::{
    Color, Dial, LayoutsView, StepSequencerState, Timecode, law_repeated_write_skips,
};

verus! {

/// What a layout control shows.
#[derive(Clone, Debug)]
pub enum ControlType {
    /// The value of the pipeline node at `path`.
    Node { path: String },
    /// Anything that is no pipeline node.
    Other,
}

/// A control placed on a layout.
#[derive(Clone, Debug)]
pub struct ControlConfig {
    pub control_type: ControlType,
}

/// A layout: its id and its controls.
#[derive(Clone, Debug)]
pub struct Layout {
    pub id: String,
    pub controls: Vec<ControlConfig>,
}

/// The control shows the node at `path`.
pub open spec fn control_shows_path(control: ControlConfig, path: Seq<char>) -> bool {
    match control.control_type {
        ControlType::Node { path: p } => p@ == path,
        ControlType::Other => false,
    }
}

/// One of the first `count` controls shows the node at `path`.
pub open spec fn controls_show_path(controls: Seq<ControlConfig>, count: int, path: Seq<char>) -> bool {
    exists|j: int| 0 <= j < count && #[trigger] control_shows_path(controls[j], path)
}

/// A control of one of the first `count` layouts shows the node at `path`.
pub open spec fn layouts_show_path(layouts: Seq<Layout>, count: int, path: Seq<char>) -> bool {
    exists|i: int|
        0 <= i < count && #[trigger] controls_show_path(
            layouts[i].controls@,
            layouts[i].controls@.len() as int,
            path,
        )
}

/// The paths of all node controls, in layout order, with repetitions.
fn collect_control_paths(layouts: &Vec<Layout>) -> (r: Vec<String>)
    ensures
        forall|p: Seq<char>|
            string_views(r@).contains(p) <==> layouts_show_path(layouts@, layouts@.len() as int, p),
{
    let mut paths: Vec<String> = Vec::new();
    let mut i: usize = 0;
    while i < layouts.len()
        invariant
            i <= layouts.len(),
            forall|p: Seq<char>|
                string_views(paths@).contains(p) <==> layouts_show_path(layouts@, i as int, p),
        decreases layouts.len() - i,
    {
        let controls = &layouts[i].controls;
        let mut j: usize = 0;
        while j < controls.len()
            invariant
                i < layouts.len(),
                controls == &layouts@[i as int].controls,
                j <= controls.len(),
                forall|p: Seq<char>|
                    string_views(paths@).contains(p) <==> (layouts_show_path(layouts@, i as int, p)
                        || controls_show_path(controls@, j as int, p)),
            decreases controls.len() - j,
        {
            let ghost before = paths@;
            match &controls[j].control_type {
                ControlType::Node { path } => {
                    paths.push(path.clone());
                },
                ControlType::Other => {},
            }
            proof {
                assert forall|p: Seq<char>|
                    string_views(paths@).contains(p) <==> (layouts_show_path(layouts@, i as int, p)
                        || controls_show_path(controls@, j + 1, p)) by {
                    if controls_show_path(controls@, j + 1, p) && !controls_show_path(
                        controls@,
                        j as int,
                        p,
                    ) {
                        let k = choose|k: int|
                            0 <= k < j + 1 && #[trigger] control_shows_path(controls@[k], p);
                        assert(k == j);
                        assert(string_views(paths@)[paths@.len() - 1] == p);
                    }
                    if controls_show_path(controls@, j as int, p) {
                        let k = choose|k: int|
                            0 <= k < j && #[trigger] control_shows_path(controls@[k], p);
                        assert(control_shows_path(controls@[k], p));
                    }
                    if string_views(paths@).contains(p) {
                        let k = choose|k: int|
                            0 <= k < paths@.len() && string_views(paths@)[k] == p;
                        if k < before.len() {
                            assert(string_views(before)[k] == p);
                        } else {
                            assert(control_shows_path(controls@[j as int], p));
                        }
                    }
                    if string_views(before).contains(p) {
                        let k = choose|k: int| 0 <= k < before.len() && string_views(before)[k] == p;
                        assert(string_views(paths@)[k] == p);
                    }
                }
            }
            j = j + 1;
        }
        proof {
            assert forall|p: Seq<char>|
                layouts_show_path(layouts@, i + 1, p) <==> (layouts_show_path(layouts@, i as int, p)
                    || controls_show_path(controls@, controls@.len() as int, p)) by {
                if layouts_show_path(layouts@, i + 1, p) {
                    let k = choose|k: int|
                        0 <= k < i + 1 && #[trigger] controls_show_path(
                            layouts@[k].controls@,
                            layouts@[k].controls@.len() as int,
                            p,
                        );
                    if k < i {
                        assert(layouts_show_path(layouts@, i as int, p));
                    }
                }
                if controls_show_path(controls@, controls@.len() as int, p) {
                    assert(controls_show_path(
                        layouts@[i as int].controls@,
                        layouts@[i as int].controls@.len() as int,
                        p,
                    ));
                }
                if layouts_show_path(layouts@, i as int, p) {
                    let k = choose|k: int|
                        0 <= k < i && #[trigger] controls_show_path(
                            layouts@[k].controls@,
                            layouts@[k].controls@.len() as int,
                            p,
                        );
                    assert(controls_show_path(
                        layouts@[k].controls@,
                        layouts@[k].controls@.len() as int,
                        p,
                    ));
                }
            }
        }
        i = i + 1;
    }
    paths
}

/// The paths of the nodes that the layouts show: each once, in ascending
/// order.
pub fn layout_node_paths(layouts: &Vec<Layout>) -> (r: Vec<String>)
    ensures
        strictly_sorted_chars(string_views(r@)),
        forall|p: Seq<char>|
            string_views(r@).contains(p) <==> layouts_show_path(layouts@, layouts@.len() as int, p),
{
    let collected = collect_control_paths(layouts);
    let ghost collected_views = string_views(collected@);
    let sorted = sort_strings(collected);
    let ghost sorted_views = string_views(sorted@);
    let unique = dedup_strings(sorted);
    proof {
        collected_views.to_multiset_ensures();
        sorted_views.to_multiset_ensures();
        lemma_dedup_contents(sorted_views);
        lemma_dedup_sorted(sorted_views);
        assert forall|p: Seq<char>| sorted_views.contains(p) <==> collected_views.contains(p) by {
            assert(sorted_views.contains(p) <==> sorted_views.to_multiset().count(p) > 0);
            assert(collected_views.contains(p) <==> collected_views.to_multiset().count(p) > 0);
        }
        assert forall|p: Seq<char>|
            string_views(unique@).contains(p) <==> layouts_show_path(
                layouts@,
                layouts@.len() as int,
                p,
            ) by {
            assert(dedup_spec(sorted_views).contains(p) <==> sorted_views.contains(p));
            assert(collected_views.contains(p) <==> layouts_show_path(
                layouts@,
                layouts@.len() as int,
                p,
            ));
        }
    }
    unique
}

/// The type of a pipeline node, as far as the layout views tell types apart.
#[derive(Clone, Copy, Debug, PartialEq, Eq, Structural)]
pub enum NodeKind {
    Fader,
    Dial,
    Button,
    Label,
    Timecode,
    StepSequencer,
    Level,
    Other,
}

/// The paths of the nodes the layouts show, split by the type of node.
#[derive(Clone, Debug)]
pub struct PathsByKind {
    pub faders: Vec<String>,
    pub dials: Vec<String>,
    pub buttons: Vec<String>,
    pub labels: Vec<String>,
    pub clocks: Vec<String>,
    pub step_sequencers: Vec<String>,
    pub levels: Vec<String>,
}

/// The paths, in order, whose node is of type `kind`.
pub open spec fn paths_of_kind(typed: Seq<(String, Option<NodeKind>)>, kind: NodeKind) -> Seq<
    Seq<char>,
>
    decreases typed.len(),
{
    if typed.len() == 0 {
        Seq::empty()
    } else if typed.last().1 == Some(kind) {
        paths_of_kind(typed.drop_last(), kind).push(typed.last().0@)
    } else {
        paths_of_kind(typed.drop_last(), kind)
    }
}

impl PathsByKind {
    /// Each list holds, in order, the paths whose node is of its type; paths
    /// of any other type, or of no node, are in none.
    pub open spec fn splits(self, typed: Seq<(String, Option<NodeKind>)>) -> bool {
        &&& string_views(self.faders@) == paths_of_kind(typed, NodeKind::Fader)
        &&& string_views(self.dials@) == paths_of_kind(typed, NodeKind::Dial)
        &&& string_views(self.buttons@) == paths_of_kind(typed, NodeKind::Button)
        &&& string_views(self.labels@) == paths_of_kind(typed, NodeKind::Label)
        &&& string_views(self.clocks@) == paths_of_kind(typed, NodeKind::Timecode)
        &&& string_views(self.step_sequencers@) == paths_of_kind(typed, NodeKind::StepSequencer)
        &&& string_views(self.levels@) == paths_of_kind(typed, NodeKind::Level)
    }
}

/// Adds `path` to the list of its type, if the view shows nodes of that type.
fn push_path(paths: &mut PathsByKind, path: &String, kind: Option<NodeKind>)
    ensures
        string_views(final(paths).faders@) == (if kind == Some(NodeKind::Fader) {
            string_views(old(paths).faders@).push(path@)
        } else {
            string_views(old(paths).faders@)
        }),
        string_views(final(paths).dials@) == (if kind == Some(NodeKind::Dial) {
            string_views(old(paths).dials@).push(path@)
        } else {
            string_views(old(paths).dials@)
        }),
        string_views(final(paths).buttons@) == (if kind == Some(NodeKind::Button) {
            string_views(old(paths).buttons@).push(path@)
        } else {
            string_views(old(paths).buttons@)
        }),
        string_views(final(paths).labels@) == (if kind == Some(NodeKind::Label) {
            string_views(old(paths).labels@).push(path@)
        } else {
            string_views(old(paths).labels@)
        }),
        string_views(final(paths).clocks@) == (if kind == Some(NodeKind::Timecode) {
            string_views(old(paths).clocks@).push(path@)
        } else {
            string_views(old(paths).clocks@)
        }),
        string_views(final(paths).step_sequencers@) == (if kind == Some(NodeKind::StepSequencer) {
            string_views(old(paths).step_sequencers@).push(path@)
        } else {
            string_views(old(paths).step_sequencers@)
        }),
        string_views(final(paths).levels@) == (if kind == Some(NodeKind::Level) {
            string_views(old(paths).levels@).push(path@)
        } else {
            string_views(old(paths).levels@)
        }),
{
    let ghost before = *paths;
    match kind {
        Some(NodeKind::Fader) => paths.faders.push(path.clone()),
        Some(NodeKind::Dial) => paths.dials.push(path.clone()),
        Some(NodeKind::Button) => paths.buttons.push(path.clone()),
        Some(NodeKind::Label) => paths.labels.push(path.clone()),
        Some(NodeKind::Timecode) => paths.clocks.push(path.clone()),
        Some(NodeKind::StepSequencer) => paths.step_sequencers.push(path.clone()),
        Some(NodeKind::Level) => paths.levels.push(path.clone()),
        _ => {},
    }
    proof {
        assert(string_views(paths.faders@) =~= (if kind == Some(NodeKind::Fader) {
            string_views(before.faders@).push(path@)
        } else {
            string_views(before.faders@)
        }));
        assert(string_views(paths.dials@) =~= (if kind == Some(NodeKind::Dial) {
            string_views(before.dials@).push(path@)
        } else {
            string_views(before.dials@)
        }));
        assert(string_views(paths.buttons@) =~= (if kind == Some(NodeKind::Button) {
            string_views(before.buttons@).push(path@)
        } else {
            string_views(before.buttons@)
        }));
        assert(string_views(paths.labels@) =~= (if kind == Some(NodeKind::Label) {
            string_views(before.labels@).push(path@)
        } else {
            string_views(before.labels@)
        }));
        assert(string_views(paths.clocks@) =~= (if kind == Some(NodeKind::Timecode) {
            string_views(before.clocks@).push(path@)
        } else {
            string_views(before.clocks@)
        }));
        assert(string_views(paths.step_sequencers@) =~= (if kind == Some(NodeKind::StepSequencer) {
            string_views(before.step_sequencers@).push(path@)
        } else {
            string_views(before.step_sequencers@)
        }));
        assert(string_views(paths.levels@) =~= (if kind == Some(NodeKind::Level) {
            string_views(before.levels@).push(path@)
        } else {
            string_views(before.levels@)
        }));
    }
}

/// Splits the paths by the type of their node (`None`: no node at that path).
pub fn classify_paths(typed: &Vec<(String, Option<NodeKind>)>) -> (r: PathsByKind)
    ensures
        r.splits(typed@),
{
    let mut paths = PathsByKind {
        faders: Vec::new(),
        dials: Vec::new(),
        buttons: Vec::new(),
        labels: Vec::new(),
        clocks: Vec::new(),
        step_sequencers: Vec::new(),
        levels: Vec::new(),
    };
    proof {
        assert(typed@.take(0) =~= Seq::<(String, Option<NodeKind>)>::empty());
        assert(string_views(paths.faders@) =~= Seq::<Seq<char>>::empty());
        assert(string_views(paths.dials@) =~= Seq::<Seq<char>>::empty());
        assert(string_views(paths.buttons@) =~= Seq::<Seq<char>>::empty());
        assert(string_views(paths.labels@) =~= Seq::<Seq<char>>::empty());
        assert(string_views(paths.clocks@) =~= Seq::<Seq<char>>::empty());
        assert(string_views(paths.step_sequencers@) =~= Seq::<Seq<char>>::empty());
        assert(string_views(paths.levels@) =~= Seq::<Seq<char>>::empty());
    }
    let mut i: usize = 0;
    while i < typed.len()
        invariant
            i <= typed.len(),
            paths.splits(typed@.take(i as int)),
        decreases typed.len() - i,
    {
        push_path(&mut paths, &typed[i].0, typed[i].1);
        proof {
            assert(typed@.take(i + 1).drop_last() =~= typed@.take(i as int));
            assert(typed@.take(i + 1).last() == typed@[i as int]);
        }
        i = i + 1;
    }
    proof {
        assert(typed@.take(typed@.len() as int) =~= typed@);
    }
    paths
}

/// Strictly sorted sequences hold no element twice.
pub proof fn law_strictly_sorted_distinct(s: Seq<Seq<char>>)
    requires
        strictly_sorted_chars(s),
    ensures
        forall|i: int, j: int| 0 <= i < s.len() && 0 <= j < s.len() && i != j ==> s[i] != s[j],
{
    assert forall|i: int, j: int| 0 <= i < s.len() && 0 <= j < s.len() && i != j implies s[i]
        != s[j] by {
        if s[i] == s[j] {
            if i < j {
                assert(chars_lt(s[i], s[j]));
            } else {
                assert(chars_lt(s[j], s[i]));
            }
            lemma_chars_lt_irreflexive(s[i]);
        }
    }
}

/// The paths of one type are exactly the paths whose node is of that type,
/// and, where the paths were each given once, each is in the list once.
pub proof fn law_kind_paths(typed: Seq<(String, Option<NodeKind>)>, kind: NodeKind)
    ensures
        forall|p: Seq<char>|
            paths_of_kind(typed, kind).contains(p) <==> exists|i: int|
                0 <= i < typed.len() && #[trigger] typed[i].0@ == p && typed[i].1 == Some(kind),
        distinct_paths(typed) ==> forall|a: int, b: int|
            0 <= a < paths_of_kind(typed, kind).len() && 0 <= b < paths_of_kind(typed, kind).len()
                && a != b ==> paths_of_kind(typed, kind)[a] != paths_of_kind(typed, kind)[b],
    decreases typed.len(),
{
    if typed.len() > 0 {
        let init = typed.drop_last();
        law_kind_paths(init, kind);
        let ks = paths_of_kind(typed, kind);
        let ki = paths_of_kind(init, kind);
        assert forall|p: Seq<char>|
            ks.contains(p) <==> exists|i: int|
                0 <= i < typed.len() && #[trigger] typed[i].0@ == p && typed[i].1 == Some(kind) by {
            if ks.contains(p) {
                let k = choose|k: int| 0 <= k < ks.len() && ks[k] == p;
                if k < ki.len() {
                    assert(ki[k] == p);
                    assert(ki.contains(p));
                    let i = choose|i: int|
                        0 <= i < init.len() && #[trigger] init[i].0@ == p && init[i].1 == Some(kind);
                    assert(typed[i] == init[i]);
                } else {
                    assert(typed[typed.len() - 1].0@ == p);
                }
            }
            if exists|i: int|
                0 <= i < typed.len() && #[trigger] typed[i].0@ == p && typed[i].1 == Some(kind) {
                let i = choose|i: int|
                    0 <= i < typed.len() && #[trigger] typed[i].0@ == p && typed[i].1 == Some(kind);
                if i < typed.len() - 1 {
                    assert(init[i] == typed[i]);
                    assert(init[i].0@ == p);
                    assert(ki.contains(p));
                    let k = choose|k: int| 0 <= k < ki.len() && ki[k] == p;
                    if typed.last().1 == Some(kind) {
                        assert(ks[k] == p);
                    }
                } else {
                    assert(ks[ks.len() - 1] == p);
                }
            }
        }
        if distinct_paths(typed) {
            assert(distinct_paths(init)) by {
                assert forall|a: int, b: int|
                    0 <= a < init.len() && 0 <= b < init.len() && a != b implies init[a].0@
                    != init[b].0@ by {
                    assert(init[a] == typed[a] && init[b] == typed[b]);
                }
            }
            if typed.last().1 == Some(kind) {
                let last = typed.last().0@;
                assert(!ki.contains(last)) by {
                    if ki.contains(last) {
                        let i = choose|i: int|
                            0 <= i < init.len() && #[trigger] init[i].0@ == last && init[i].1 == Some(
                                kind,
                            );
                        assert(typed[i] == init[i]);
                    }
                }
                assert forall|a: int, b: int|
                    0 <= a < ks.len() && 0 <= b < ks.len() && a != b implies ks[a] != ks[b] by {
                    if a < ki.len() && b < ki.len() {
                        assert(ks[a] == ki[a] && ks[b] == ki[b]);
                    } else if a < ki.len() {
                        assert(ks[a] == ki[a]);
                        assert(ki.contains(ki[a]));
                    } else {
                        assert(ks[b] == ki[b]);
                        assert(ki.contains(ki[b]));
                    }
                }
            }
        }
    }
}

/// The values read from the pipeline for the paths of each type, in the
/// order of the paths in [`PathsByKind`], with `None` where the node gave no
/// value; colours go with the button paths.
pub struct NodeValues {
    pub faders: Vec<Option<F64Bits>>,
    pub dials: Vec<Option<Dial>>,
    pub buttons: Vec<Option<bool>>,
    pub button_colors: Vec<Option<Color>>,
    pub labels: Vec<Option<Arc<String>>>,
    pub clocks: Vec<Option<Timecode>>,
    pub step_sequencers: Vec<Option<StepSequencerState>>,
    pub levels: Vec<Option<F64Bits>>,
}

/// The `(path, value)` pairs of the first `n` paths that have a value, in
/// order.
pub open spec fn picked<V>(paths: Seq<String>, values: Seq<Option<V>>, n: int) -> Seq<(String, V)>
    decreases n,
{
    if n <= 0 {
        Seq::empty()
    } else {
        match values[n - 1] {
            Some(v) => picked(paths, values, n - 1).push((paths[n - 1], v)),
            None => picked(paths, values, n - 1),
        }
    }
}

/// The `(path, value)` pairs of the paths that have a value, pairing each
/// path with the value at its position.
pub open spec fn paired_values<V>(paths: Seq<String>, values: Seq<Option<V>>) -> Seq<(String, V)> {
    picked(
        paths,
        values,
        if paths.len() <= values.len() {
            paths.len() as int
        } else {
            values.len() as int
        },
    )
}

/// `entry` pairs the path at position `i` with the value read there.
pub open spec fn pair_at<V>(paths: Seq<String>, values: Seq<Option<V>>, i: int, entry: (String, V)) -> bool {
    values[i] == Some(entry.1) && entry.0 == paths[i]
}

/// `entry` pairs the path of one of the first `n` positions with the value
/// read there.
pub open spec fn from_position<V>(
    paths: Seq<String>,
    values: Seq<Option<V>>,
    n: int,
    entry: (String, V),
) -> bool {
    exists|i: int| 0 <= i < n && #[trigger] pair_at(paths, values, i, entry)
}

/// Each picked pair comes from a position with a value.
proof fn lemma_picked_origin<V>(paths: Seq<String>, values: Seq<Option<V>>, n: int)
    requires
        0 <= n <= paths.len(),
        n <= values.len(),
    ensures
        forall|k: int|
            0 <= k < picked(paths, values, n).len() ==> #[trigger] from_position(
                paths,
                values,
                n,
                picked(paths, values, n)[k],
            ),
    decreases n,
{
    if n > 0 {
        lemma_picked_origin(paths, values, n - 1);
        assert forall|k: int| 0 <= k < picked(paths, values, n).len() implies #[trigger] from_position(
            paths,
            values,
            n,
            picked(paths, values, n)[k],
        ) by {
            if k < picked(paths, values, n - 1).len() {
                assert(picked(paths, values, n)[k] == picked(paths, values, n - 1)[k]);
                assert(from_position(paths, values, n - 1, picked(paths, values, n - 1)[k]));
                let i = choose|i: int|
                    0 <= i < n - 1 && #[trigger] pair_at(
                        paths,
                        values,
                        i,
                        picked(paths, values, n - 1)[k],
                    );
                assert(pair_at(paths, values, i, picked(paths, values, n)[k]));
            } else {
                assert(pair_at(paths, values, n - 1, picked(paths, values, n)[k]));
            }
        }
    }
}

/// Each position with a value gives a picked pair.
proof fn lemma_picked_complete<V>(paths: Seq<String>, values: Seq<Option<V>>, n: int)
    requires
        0 <= n <= paths.len(),
        n <= values.len(),
    ensures
        forall|i: int|
            0 <= i < n && values[i] is Some ==> exists|k: int|
                0 <= k < picked(paths, values, n).len() && #[trigger] picked(paths, values, n)[k]
                    == (paths[i], values[i]->0),
    decreases n,
{
    if n > 0 {
        lemma_picked_complete(paths, values, n - 1);
        assert forall|i: int| 0 <= i < n && values[i] is Some implies exists|k: int|
            0 <= k < picked(paths, values, n).len() && #[trigger] picked(paths, values, n)[k] == (
                paths[i],
                values[i]->0,
            ) by {
            if i < n - 1 {
                let k = choose|k: int|
                    0 <= k < picked(paths, values, n - 1).len() && #[trigger] picked(
                        paths,
                        values,
                        n - 1,
                    )[k] == (paths[i], values[i]->0);
                assert(picked(paths, values, n)[k] == picked(paths, values, n - 1)[k]);
            } else {
                let last = picked(paths, values, n).len() - 1;
                assert(picked(paths, values, n)[last] == (paths[i], values[i]->0));
            }
        }
    }
}

/// With the paths each given once, no path is picked twice.
proof fn lemma_picked_distinct<V>(paths: Seq<String>, values: Seq<Option<V>>, n: int)
    requires
        0 <= n <= paths.len(),
        n <= values.len(),
        forall|a: int, b: int|
            0 <= a < paths.len() && 0 <= b < paths.len() && a != b ==> paths[a]@ != paths[b]@,
    ensures
        distinct_paths(picked(paths, values, n)),
    decreases n,
{
    if n > 0 {
        lemma_picked_distinct(paths, values, n - 1);
        lemma_picked_origin(paths, values, n - 1);
        let init = picked(paths, values, n - 1);
        if values[n - 1] is Some {
            let cur = picked(paths, values, n);
            assert(cur == init.push((paths[n - 1], values[n - 1]->0)));
            assert forall|a: int| 0 <= a < init.len() implies init[a].0@ != paths[n - 1]@ by {
                assert(init[a] == picked(paths, values, n - 1)[a]);
                assert(from_position(paths, values, n - 1, picked(paths, values, n - 1)[a]));
                let i = choose|i: int|
                    0 <= i < n - 1 && #[trigger] pair_at(
                        paths,
                        values,
                        i,
                        picked(paths, values, n - 1)[a],
                    );
                assert(paths[i]@ != paths[n - 1]@);
            }
            assert forall|a: int, b: int|
                0 <= a < cur.len() && 0 <= b < cur.len() && a != b implies cur[a].0@ != cur[b].0@ by {
                if a < init.len() && b < init.len() {
                    assert(cur[a] == init[a] && cur[b] == init[b]);
                } else if a < init.len() {
                    assert(cur[a] == init[a]);
                } else {
                    assert(cur[b] == init[b]);
                }
            }
        }
    }
}

/// Where the paths are each given once, the map that the pairs build holds
/// exactly the paths that have a value, each with the value at its position.
pub proof fn law_paired_values_map<V>(paths: Seq<String>, values: Seq<Option<V>>)
    requires
        forall|a: int, b: int|
            0 <= a < paths.len() && 0 <= b < paths.len() && a != b ==> paths[a]@ != paths[b]@,
        paths.len() == values.len(),
    ensures
        forall|p: Seq<char>|
            pairs_map(paired_values(paths, values)).dom().contains(p) <==> exists|i: int|
                0 <= i < paths.len() && #[trigger] paths[i]@ == p && values[i] is Some,
        forall|i: int|
            0 <= i < paths.len() && values[i] is Some ==> pairs_map(paired_values(paths, values))[
            #[trigger] paths[i]@] == values[i]->0,
{
    let n = paths.len() as int;
    let pairs = paired_values(paths, values);
    lemma_picked_origin(paths, values, n);
    lemma_picked_complete(paths, values, n);
    lemma_picked_distinct(paths, values, n);
    assert forall|p: Seq<char>|
        pairs_map(pairs).dom().contains(p) <==> exists|i: int|
            0 <= i < paths.len() && #[trigger] paths[i]@ == p && values[i] is Some by {
        lemma_pairs_map_dom(pairs, p);
        if pairs_map(pairs).dom().contains(p) {
            let k = choose|k: int| 0 <= k < pairs.len() && pairs[k].0@ == p;
            assert(from_position(paths, values, n, pairs[k]));
            let i = choose|i: int| 0 <= i < n && #[trigger] pair_at(paths, values, i, pairs[k]);
            assert(paths[i]@ == p);
        }
        if exists|i: int| 0 <= i < paths.len() && #[trigger] paths[i]@ == p && values[i] is Some {
            let i = choose|i: int| 0 <= i < paths.len() && #[trigger] paths[i]@ == p && values[i] is Some;
            let k = choose|k: int| 0 <= k < pairs.len() && #[trigger] pairs[k] == (paths[i], values[i]->0);
            assert(pairs[k].0@ == p);
        }
    }
    assert forall|i: int| 0 <= i < paths.len() && values[i] is Some implies pairs_map(pairs)[
        #[trigger] paths[i]@] == values[i]->0 by {
        let k = choose|k: int| 0 <= k < pairs.len() && #[trigger] pairs[k] == (paths[i], values[i]->0);
        lemma_pairs_map_value(pairs, k);
    }
}

/// What a tick publishes for one type of node: of the paths whose node is of
/// that type (each given once), exactly those with a value read, each with
/// that value.
pub proof fn law_published_kind_values<V>(
    typed: Seq<(String, Option<NodeKind>)>,
    kind: NodeKind,
    kind_paths: Seq<String>,
    values: Seq<Option<V>>,
)
    requires
        distinct_paths(typed),
        string_views(kind_paths) == paths_of_kind(typed, kind),
        values.len() == kind_paths.len(),
    ensures
        forall|p: Seq<char>|
            pairs_map(paired_values(kind_paths, values)).dom().contains(p) <==> exists|i: int|
                0 <= i < kind_paths.len() && #[trigger] kind_paths[i]@ == p && values[i] is Some,
        forall|p: Seq<char>|
            pairs_map(paired_values(kind_paths, values)).dom().contains(p) ==> exists|j: int|
                0 <= j < typed.len() && #[trigger] typed[j].0@ == p && typed[j].1 == Some(kind),
        forall|i: int|
            0 <= i < kind_paths.len() && values[i] is Some ==> pairs_map(
                paired_values(kind_paths, values),
            )[#[trigger] kind_paths[i]@] == values[i]->0,
{
    law_kind_paths(typed, kind);
    let kp = paths_of_kind(typed, kind);
    assert forall|a: int, b: int|
        0 <= a < kind_paths.len() && 0 <= b < kind_paths.len() && a != b implies kind_paths[a]@
        != kind_paths[b]@ by {
        assert(string_views(kind_paths)[a] == kind_paths[a]@);
        assert(string_views(kind_paths)[b] == kind_paths[b]@);
    }
    law_paired_values_map(kind_paths, values);
    assert forall|p: Seq<char>|
        pairs_map(paired_values(kind_paths, values)).dom().contains(p) implies exists|j: int|
            0 <= j < typed.len() && #[trigger] typed[j].0@ == p && typed[j].1 == Some(kind) by {
        let i = choose|i: int|
            0 <= i < kind_paths.len() && #[trigger] kind_paths[i]@ == p && values[i] is Some;
        assert(kp[i] == p);
        assert(kp.contains(p));
    }
}

/// Pairs each path with the value read at its position, leaving out the paths
/// without a value.
fn pair_values<V>(paths: &Vec<String>, values: Vec<Option<V>>) -> (r: Vec<(String, V)>)
    ensures
        r@ == paired_values(paths@, values@),
{
    let ghost all = values@;
    let n = if paths.len() <= values.len() {
        paths.len()
    } else {
        values.len()
    };
    let mut rest = values;
    let mut pairs: Vec<(String, V)> = Vec::new();
    let mut i: usize = 0;
    while i < n
        invariant
            n <= paths@.len(),
            n <= all.len(),
            n == (if paths@.len() <= all.len() { paths@.len() } else { all.len() }),
            i <= n,
            rest@ == all.skip(i as int),
            pairs@ == picked(paths@, all, i as int),
        decreases n - i,
    {
        let value = rest.remove(0);
        proof {
            assert(all[i as int] == value);
            assert(rest@ =~= all.skip(i + 1));
        }
        match value {
            Some(v) => {
                pairs.push((paths[i].clone(), v));
            },
            None => {},
        }
        i = i + 1;
    }
    pairs
}

/// The readings of one tick: for each type, the paths of that type paired
/// with the values read for them; the colours are those of the buttons.
pub fn node_readings(paths: &PathsByKind, values: NodeValues) -> (r: NodeReadings)
    ensures
        r.faders@ == paired_values(paths.faders@, values.faders@),
        r.dials@ == paired_values(paths.dials@, values.dials@),
        r.buttons@ == paired_values(paths.buttons@, values.buttons@),
        r.button_colors@ == paired_values(paths.buttons@, values.button_colors@),
        r.labels@ == paired_values(paths.labels@, values.labels@),
        r.clocks@ == paired_values(paths.clocks@, values.clocks@),
        r.step_sequencers@ == paired_values(paths.step_sequencers@, values.step_sequencers@),
        r.levels@ == paired_values(paths.levels@, values.levels@),
{
    let NodeValues {
        faders,
        dials,
        buttons,
        button_colors,
        labels,
        clocks,
        step_sequencers,
        levels,
    } = values;
    NodeReadings {
        faders: pair_values(&paths.faders, faders),
        dials: pair_values(&paths.dials, dials),
        buttons: pair_values(&paths.buttons, buttons),
        labels: pair_values(&paths.labels, labels),
        clocks: pair_values(&paths.clocks, clocks),
        button_colors: pair_values(&paths.buttons, button_colors),
        step_sequencers: pair_values(&paths.step_sequencers, step_sequencers),
        levels: pair_values(&paths.levels, levels),
    }
}

/// The values read from the pipeline in one tick, as `(path, value)` pairs per
/// kind of control.
pub struct NodeReadings {
    pub faders: Vec<(String, F64Bits)>,
    pub dials: Vec<(String, Dial)>,
    pub buttons: Vec<(String, bool)>,
    pub labels: Vec<(String, Arc<String>)>,
    pub clocks: Vec<(String, Timecode)>,
    pub button_colors: Vec<(String, Color)>,
    pub step_sequencers: Vec<(String, StepSequencerState)>,
    pub levels: Vec<(String, F64Bits)>,
}

/// The values that `pairs` build differ from `current`.
pub open spec fn differs<V: ViewValue>(current: Map<Seq<char>, V>, pairs: Seq<(String, V)>) -> bool {
    !maps_equivalent(current, pairs_map(pairs))
}

/// `after` is what a write of `pairs` over `before` publishes.
pub open spec fn published<V: ViewValue>(
    before: Map<Seq<char>, V>,
    pairs: Seq<(String, V)>,
    after: Map<Seq<char>, V>,
) -> bool {
    after == (if differs(before, pairs) { pairs_map(pairs) } else { before })
}

/// 1 if the values differ, else 0.
pub open spec fn change_count<V: ViewValue>(current: Map<Seq<char>, V>, pairs: Seq<(String, V)>) -> int {
    if differs(current, pairs) {
        1
    } else {
        0
    }
}

impl NodeReadings {
    /// How many of the view's eight sets of values these readings change.
    pub open spec fn changes(self, view: LayoutsView) -> int {
        change_count(view.fader_values(), self.faders@) + change_count(view.dial_values(), self.dials@)
            + change_count(view.button_values(), self.buttons@) + change_count(
            view.label_values(),
            self.labels@,
        ) + change_count(view.clock_values(), self.clocks@) + change_count(
            view.color_values(),
            self.button_colors@,
        ) + change_count(view.step_sequencer_values(), self.step_sequencers@) + change_count(
            view.level_values(),
            self.levels@,
        )
    }

    /// `after` is the view that publishing these readings over `before` leaves.
    pub open spec fn publishes(self, before: LayoutsView, after: LayoutsView) -> bool {
        &&& published(before.fader_values(), self.faders@, after.fader_values())
        &&& published(before.dial_values(), self.dials@, after.dial_values())
        &&& published(before.button_values(), self.buttons@, after.button_values())
        &&& published(before.label_values(), self.labels@, after.label_values())
        &&& published(before.clock_values(), self.clocks@, after.clock_values())
        &&& published(before.color_values(), self.button_colors@, after.color_values())
        &&& published(
            before.step_sequencer_values(),
            self.step_sequencers@,
            after.step_sequencer_values(),
        )
        &&& published(before.level_values(), self.levels@, after.level_values())
    }
}

/// Publishes one tick's readings in the view, each kind only where it changed;
/// returns how many kinds changed.
pub fn read_states_into_view(view: &mut LayoutsView, readings: NodeReadings) -> (changed: usize)
    ensures
        changed == readings.changes(*old(view)),
        readings.publishes(*old(view), *final(view)),
{
    let NodeReadings {
        faders,
        dials,
        buttons,
        labels,
        clocks,
        button_colors,
        step_sequencers,
        levels,
    } = readings;
    let mut changed: usize = 0;
    if view.write_fader_values(PathMap::from_pairs(faders)) {
        changed = changed + 1;
    }
    if view.write_dial_values(PathMap::from_pairs(dials)) {
        changed = changed + 1;
    }
    if view.write_button_values(PathMap::from_pairs(buttons)) {
        changed = changed + 1;
    }
    if view.write_label_values(PathMap::from_pairs(labels)) {
        changed = changed + 1;
    }
    if view.write_clock_values(PathMap::from_pairs(clocks)) {
        changed = changed + 1;
    }
    if view.write_control_colors(PathMap::from_pairs(button_colors)) {
        changed = changed + 1;
    }
    if view.write_step_sequencer_values(PathMap::from_pairs(step_sequencers)) {
        changed = changed + 1;
    }
    if view.write_level_values(PathMap::from_pairs(levels)) {
        changed = changed + 1;
    }
    changed
}

/// After a tick, each of the eight kinds (faders, dials, buttons, labels,
/// timecodes, colours, step sequencers, levels) publishes values the same as
/// those its readings build.
pub proof fn law_tick_publishes_every_kind(
    before: LayoutsView,
    readings: NodeReadings,
    after: LayoutsView,
)
    requires
        readings.publishes(before, after),
    ensures
        maps_equivalent(after.fader_values(), pairs_map(readings.faders@)),
        maps_equivalent(after.dial_values(), pairs_map(readings.dials@)),
        maps_equivalent(after.button_values(), pairs_map(readings.buttons@)),
        maps_equivalent(after.label_values(), pairs_map(readings.labels@)),
        maps_equivalent(after.clock_values(), pairs_map(readings.clocks@)),
        maps_equivalent(after.color_values(), pairs_map(readings.button_colors@)),
        maps_equivalent(after.step_sequencer_values(), pairs_map(readings.step_sequencers@)),
        maps_equivalent(after.level_values(), pairs_map(readings.levels@)),
{
    law_repeated_write_skips(
        before.fader_values(),
        pairs_map(readings.faders@),
        after.fader_values(),
        differs(before.fader_values(), readings.faders@),
    );
    law_repeated_write_skips(
        before.dial_values(),
        pairs_map(readings.dials@),
        after.dial_values(),
        differs(before.dial_values(), readings.dials@),
    );
    law_repeated_write_skips(
        before.button_values(),
        pairs_map(readings.buttons@),
        after.button_values(),
        differs(before.button_values(), readings.buttons@),
    );
    law_repeated_write_skips(
        before.label_values(),
        pairs_map(readings.labels@),
        after.label_values(),
        differs(before.label_values(), readings.labels@),
    );
    law_repeated_write_skips(
        before.clock_values(),
        pairs_map(readings.clocks@),
        after.clock_values(),
        differs(before.clock_values(), readings.clocks@),
    );
    law_repeated_write_skips(
        before.color_values(),
        pairs_map(readings.button_colors@),
        after.color_values(),
        differs(before.color_values(), readings.button_colors@),
    );
    law_repeated_write_skips(
        before.step_sequencer_values(),
        pairs_map(readings.step_sequencers@),
        after.step_sequencer_values(),
        differs(before.step_sequencer_values(), readings.step_sequencers@),
    );
    law_repeated_write_skips(
        before.level_values(),
        pairs_map(readings.levels@),
        after.level_values(),
        differs(before.level_values(), readings.levels@),
    );
}

/// A tick counts between 0 and 8 changes; it counts none exactly when each of
/// the eight kinds reads values the same as those published, and so at least
/// one whenever any kind, timecodes included, reads different ones.
pub proof fn law_tick_counts_changed_kinds(before: LayoutsView, readings: NodeReadings)
    ensures
        0 <= readings.changes(before) <= 8,
        readings.changes(before) == 0 <==> (maps_equivalent(
            before.fader_values(),
            pairs_map(readings.faders@),
        ) && maps_equivalent(before.dial_values(), pairs_map(readings.dials@)) && maps_equivalent(
            before.button_values(),
            pairs_map(readings.buttons@),
        ) && maps_equivalent(before.label_values(), pairs_map(readings.labels@)) && maps_equivalent(
            before.clock_values(),
            pairs_map(readings.clocks@),
        ) && maps_equivalent(before.color_values(), pairs_map(readings.button_colors@))
            && maps_equivalent(before.step_sequencer_values(), pairs_map(readings.step_sequencers@))
            && maps_equivalent(before.level_values(), pairs_map(readings.levels@))),
{
}

/// Publishing one kind of readings a second time changes nothing.
proof fn lemma_republish_unchanged<V: ViewValue>(
    before: Map<Seq<char>, V>,
    pairs: Seq<(String, V)>,
    after: Map<Seq<char>, V>,
)
    requires
        published(before, pairs, after),
    ensures
        !differs(after, pairs),
{
    law_repeated_write_skips(before, pairs_map(pairs), after, differs(before, pairs));
}

/// A tick that reads the same values as the tick before changes nothing in the
/// view.
pub proof fn law_idle_tick_changes_nothing(
    before: LayoutsView,
    readings: NodeReadings,
    after: LayoutsView,
)
    requires
        readings.publishes(before, after),
    ensures
        readings.changes(after) == 0,
{
    lemma_republish_unchanged(before.fader_values(), readings.faders@, after.fader_values());
    lemma_republish_unchanged(before.dial_values(), readings.dials@, after.dial_values());
    lemma_republish_unchanged(before.button_values(), readings.buttons@, after.button_values());
    lemma_republish_unchanged(before.label_values(), readings.labels@, after.label_values());
    lemma_republish_unchanged(before.clock_values(), readings.clocks@, after.clock_values());
    lemma_republish_unchanged(before.color_values(), readings.button_colors@, after.color_values());
    lemma_republish_unchanged(
        before.step_sequencer_values(),
        readings.step_sequencers@,
        after.step_sequencer_values(),
    );
    lemma_republish_unchanged(before.level_values(), readings.levels@, after.level_values());
}

/// `order` runs every processor once, by ascending priority, and processors
/// of equal priority in the order they were added.
pub open spec fn is_priority_order(priorities: Seq<i32>, order: Seq<usize>) -> bool {
    &&& order.len() == priorities.len()
    &&& forall|i: int| 0 <= i < order.len() ==> (#[trigger] order[i]) < priorities.len()
    &&& forall|i: int, j: int| 0 <= i < j < order.len() ==> #[trigger] order[i] != #[trigger] order[j]
    &&& forall|i: int, j: int|
        0 <= i < j < order.len() ==> priorities[#[trigger] order[i] as int]
            <= priorities[#[trigger] order[j] as int]
    &&& forall|i: int, j: int|
        0 <= i < j < order.len() && priorities[#[trigger] order[i] as int]
            == priorities[#[trigger] order[j] as int] ==> order[i] < order[j]
}

/// The order in which to run processors of the given priorities: ascending
/// priority, and, between equal priorities, the order they were added in.
pub fn processing_order(priorities: &Vec<i32>) -> (order: Vec<usize>)
    ensures
        is_priority_order(priorities@, order@),
{
    let n = priorities.len();
    let mut items: Vec<(i32, usize)> = Vec::new();
    let mut k: usize = 0;
    while k < n
        invariant
            n == priorities.len(),
            k <= n,
            items@.len() == k,
            forall|a: int| 0 <= a < k ==> #[trigger] items@[a] == (priorities@[a], a as usize),
        decreases n - k,
    {
        items.push((priorities[k], k));
        k = k + 1;
    }
    let ghost items_seq = items@;
    let sorted = stable_sort_by_key(items);
    proof {
        sorted@.to_multiset_ensures();
        items_seq.to_multiset_ensures();
        assert forall|i: int| 0 <= i < sorted@.len() implies items_seq.contains(
            #[trigger] sorted@[i],
        ) by {
            assert(sorted@.contains(sorted@[i]));
            assert(sorted@.to_multiset().count(sorted@[i]) > 0);
            assert(items_seq.contains(sorted@[i]));
        }
    }
    let mut order: Vec<usize> = Vec::new();
    let mut i: usize = 0;
    while i < sorted.len()
        invariant
            i <= sorted.len(),
            sorted@.len() == n,
            order@.len() == i,
            forall|a: int| 0 <= a < i ==> #[trigger] order@[a] == sorted@[a].1,
        decreases sorted.len() - i,
    {
        order.push(sorted[i].1);
        i = i + 1;
    }
    proof {
        assert forall|i: int| 0 <= i < order@.len() implies sorted@[i].1 < n && sorted@[i].0
            == priorities@[sorted@[i].1 as int] by {
            assert(items_seq.contains(sorted@[i]));
            let a = choose|a: int| 0 <= a < items_seq.len() && items_seq[a] == sorted@[i];
            assert(items_seq[a] == (priorities@[a], a as usize));
        }
        assert forall|i: int, j: int| 0 <= i < j < order@.len() && sorted@[i].0 == sorted@[j].0
            implies order@[i] < order@[j] by {
            assert(sorted@[i].0 == sorted@[j].0);
            let (a, b) = choose|a: int, b: int|
                0 <= a < b < items_seq.len() && items_seq[a] == sorted@[i] && items_seq[b] == sorted@[j];
            assert(items_seq[a] == (priorities@[a], a as usize));
            assert(items_seq[b] == (priorities@[b], b as usize));
        }
        assert forall|i: int| 0 <= i < order@.len() implies (#[trigger] order@[i]) < priorities@.len() by {
            assert(order@[i] == sorted@[i].1);
        }
        assert forall|i: int, j: int|
            0 <= i < j < order@.len() implies priorities@[#[trigger] order@[i] as int]
            <= priorities@[#[trigger] order@[j] as int] by {
            assert(order@[i] == sorted@[i].1);
            assert(order@[j] == sorted@[j].1);
            assert(sorted@[i].0 <= sorted@[j].0);
        }
        assert forall|i: int, j: int|
            0 <= i < j < order@.len() && priorities@[#[trigger] order@[i] as int]
                == priorities@[#[trigger] order@[j] as int] implies order@[i] < order@[j] by {
            assert(order@[i] == sorted@[i].1);
            assert(order@[j] == sorted@[j].1);
        }
        assert forall|i: int, j: int| 0 <= i < j < order@.len() implies #[trigger] order@[i]
            != #[trigger] order@[j] by {
            assert(order@[i] == sorted@[i].1);
            assert(order@[j] == sorted@[j].1);
            if order@[i] == order@[j] {
                assert(sorted@[i].0 == priorities@[sorted@[i].1 as int]);
                assert(sorted@[j].0 == priorities@[sorted@[j].1 as int]);
            }
        }
    }
    order
}

/// The priorities of a processor in the three phases of a tick.
#[derive(Clone, Copy, Debug)]
pub struct ProcessorPriorities {
    pub pre_process: i32,
    pub process: i32,
    pub post_process: i32,
}

/// What a tick does besides advancing the clock.
#[derive(Clone, Debug)]
pub struct TickPlan {
    /// The processors, by index, in the order their pre-process step runs.
    pub pre_process: Vec<usize>,
    /// The order of the process step.
    pub process: Vec<usize>,
    /// The order of the post-process step.
    pub post_process: Vec<usize>,
    /// Whether the pipeline refreshes the settings of watched nodes. The tick
    /// publishes one settings message either way: see
    /// [`node_settings_message`].
    pub refresh_settings: bool,
    /// Whether the pipeline refreshes node metadata and ports.
    pub refresh_metadata: bool,
}

/// The priorities of one phase, processor by processor.
pub open spec fn phase_priorities(
    priorities: Seq<ProcessorPriorities>,
    phase: spec_fn(ProcessorPriorities) -> i32,
) -> Seq<i32> {
    priorities.map_values(phase)
}

/// One phase's priorities, in the order of the processors.
fn collect_phase(priorities: &Vec<ProcessorPriorities>, phase: u8) -> (r: Vec<i32>)
    requires
        phase < 3,
    ensures
        r@.len() == priorities@.len(),
        forall|i: int|
            0 <= i < r@.len() ==> #[trigger] r@[i] == (if phase == 0 {
                priorities@[i].pre_process
            } else if phase == 1 {
                priorities@[i].process
            } else {
                priorities@[i].post_process
            }),
{
    let mut r: Vec<i32> = Vec::new();
    let mut i: usize = 0;
    while i < priorities.len()
        invariant
            phase < 3,
            i <= priorities.len(),
            r@.len() == i,
            forall|k: int|
                0 <= k < i ==> #[trigger] r@[k] == (if phase == 0 {
                    priorities@[k].pre_process
                } else if phase == 1 {
                    priorities@[k].process
                } else {
                    priorities@[k].post_process
                }),
        decreases priorities.len() - i,
    {
        let p = priorities[i];
        if phase == 0 {
            r.push(p.pre_process);
        } else if phase == 1 {
            r.push(p.process);
        } else {
            r.push(p.post_process);
        }
        i = i + 1;
    }
    r
}

/// Plans a tick: the order of the processors in each phase, whether the
/// watched node settings are refreshed (only when some are watched), and
/// whether metadata and ports are refreshed (when asked to).
pub fn plan_tick(
    priorities: &Vec<ProcessorPriorities>,
    watched_settings: &Vec<String>,
    read_metadata: bool,
) -> (plan: TickPlan)
    ensures
        is_priority_order(
            phase_priorities(priorities@, |p: ProcessorPriorities| p.pre_process),
            plan.pre_process@,
        ),
        is_priority_order(
            phase_priorities(priorities@, |p: ProcessorPriorities| p.process),
            plan.process@,
        ),
        is_priority_order(
            phase_priorities(priorities@, |p: ProcessorPriorities| p.post_process),
            plan.post_process@,
        ),
        plan.refresh_settings == (watched_settings@.len() > 0),
        plan.refresh_metadata == read_metadata,
{
    let pre = collect_phase(priorities, 0);
    let process = collect_phase(priorities, 1);
    let post = collect_phase(priorities, 2);
    proof {
        assert(pre@ =~= phase_priorities(priorities@, |p: ProcessorPriorities| p.pre_process));
        assert(process@ =~= phase_priorities(priorities@, |p: ProcessorPriorities| p.process));
        assert(post@ =~= phase_priorities(priorities@, |p: ProcessorPriorities| p.post_process));
    }
    TickPlan {
        pre_process: processing_order(&pre),
        process: processing_order(&process),
        post_process: processing_order(&post),
        refresh_settings: watched_settings.len() > 0,
        refresh_metadata: read_metadata,
    }
}

/// The settings message of a tick: empty when no node's settings are
/// watched, otherwise the settings the pipeline gave for the watched nodes.
pub fn node_settings_message<S>(watched: &Vec<String>, fetched: PathMap<S>) -> (r: PathMap<S>)
    ensures
        r@ == (if watched@.len() == 0 {
            Map::<Seq<char>, S>::empty()
        } else {
            fetched@
        }),
{
    if watched.len() == 0 {
        PathMap::new()
    } else {
        fetched
    }
}

/// The id of a preset.
#[derive(Clone, Copy, Debug, PartialEq, Eq, Structural)]
pub enum PresetId {
    Intensity(u32),
    Shutter(u32),
    Color(u32),
    Position(u32),
}

/// The ids of a list of presets.
pub open spec fn preset_ids_of<P>(presets: Seq<(PresetId, P)>) -> Seq<PresetId> {
    presets.map_values(|entry: (PresetId, P)| entry.0)
}

/// Appends the ids of `presets` to `ids`.
fn append_preset_ids<P>(ids: &mut Vec<PresetId>, presets: &Vec<(PresetId, P)>)
    ensures
        final(ids)@ == old(ids)@ + preset_ids_of(presets@),
{
    let ghost start = ids@;
    let mut i: usize = 0;
    while i < presets.len()
        invariant
            i <= presets.len(),
            ids@ == start + preset_ids_of(presets@.take(i as int)),
        decreases presets.len() - i,
    {
        ids.push(presets[i].0);
        proof {
            assert(preset_ids_of(presets@.take(i + 1)) =~= preset_ids_of(presets@.take(i as int)).push(
                presets@[i as int].0,
            ));
        }
        i = i + 1;
    }
    proof {
        assert(presets@.take(presets@.len() as int) =~= presets@);
    }
}

/// The ids of all presets: colour, then intensity, then shutter, then position
/// presets, each in its own order.
pub fn preset_ids<P>(
    color: &Vec<(PresetId, P)>,
    intensity: &Vec<(PresetId, P)>,
    shutter: &Vec<(PresetId, P)>,
    position: &Vec<(PresetId, P)>,
) -> (ids: Vec<PresetId>)
    ensures
        ids@ == preset_ids_of(color@) + preset_ids_of(intensity@) + preset_ids_of(shutter@)
            + preset_ids_of(position@),
{
    let mut ids: Vec<PresetId> = Vec::new();
    append_preset_ids(&mut ids, color);
    append_preset_ids(&mut ids, intensity);
    append_preset_ids(&mut ids, shutter);
    append_preset_ids(&mut ids, position);
    proof {
        assert(Seq::<PresetId>::empty() + preset_ids_of(color@) =~= preset_ids_of(color@));
    }
    ids
}

/// The layouts and the `(id, controls)` pairs they are kept as in a project
/// hold the same ids and controls, in the same order.
pub open spec fn layouts_match_pairs(
    layouts: Seq<Layout>,
    pairs: Seq<(String, Vec<ControlConfig>)>,
) -> bool {
    &&& layouts.len() == pairs.len()
    &&& forall|i: int|
        0 <= i < layouts.len() ==> (#[trigger] layouts[i]).id@ == pairs[i].0@ && layouts[i].controls@
            == pairs[i].1@
}

/// The layouts of a project's `(id, controls)` pairs.
pub fn add_layouts(pairs: Vec<(String, Vec<ControlConfig>)>) -> (layouts: Vec<Layout>)
    ensures
        layouts_match_pairs(layouts@, pairs@),
{
    let ghost all = pairs@;
    let mut rest = pairs;
    let mut layouts: Vec<Layout> = Vec::new();
    while rest.len() > 0
        invariant
            layouts@.len() + rest@.len() == all.len(),
            rest@ == all.skip(layouts@.len() as int),
            layouts_match_pairs(layouts@, all.take(layouts@.len() as int)),
        decreases rest.len(),
    {
        let ghost done = layouts@.len() as int;
        let (id, controls) = rest.remove(0);
        proof {
            assert(all[done] == (id, controls));
            assert(rest@ =~= all.skip(done + 1));
        }
        layouts.push(Layout { id, controls });
    }
    proof {
        assert(all.take(layouts@.len() as int) =~= all);
    }
    layouts
}

/// The `(id, controls)` pairs a project keeps of the layouts.
pub fn layouts_to_pairs(layouts: Vec<Layout>) -> (pairs: Vec<(String, Vec<ControlConfig>)>)
    ensures
        layouts_match_pairs(layouts@, pairs@),
{
    let ghost all = layouts@;
    let mut rest = layouts;
    let mut pairs: Vec<(String, Vec<ControlConfig>)> = Vec::new();
    while rest.len() > 0
        invariant
            pairs@.len() + rest@.len() == all.len(),
            rest@ == all.skip(pairs@.len() as int),
            layouts_match_pairs(all.take(pairs@.len() as int), pairs@),
        decreases rest.len(),
    {
        let ghost done = pairs@.len() as int;
        let layout = rest.remove(0);
        proof {
            assert(all[done] == layout);
            assert(rest@ =~= all.skip(done + 1));
        }
        pairs.push((layout.id, layout.controls));
    }
    proof {
        assert(all.take(pairs@.len() as int) =~= all);
    }
    pairs
}

/// Saving the layouts that a project's pairs were loaded into gives back the
/// same ids and controls, in the same order.
pub proof fn law_layouts_round_trip(
    pairs: Seq<(String, Vec<ControlConfig>)>,
    layouts: Seq<Layout>,
    saved: Seq<(String, Vec<ControlConfig>)>,
)
    requires
        layouts_match_pairs(layouts, pairs),
        layouts_match_pairs(layouts, saved),
    ensures
        saved.len() == pairs.len(),
        forall|i: int|
            0 <= i < saved.len() ==> (#[trigger] saved[i]).0@ == pairs[i].0@ && saved[i].1@
                == pairs[i].1@,
{
    assert forall|i: int| 0 <= i < saved.len() implies (#[trigger] saved[i]).0@ == pairs[i].0@
        && saved[i].1@ == pairs[i].1@ by {
        assert(layouts[i].id@ == pairs[i].0@);
    }
}

/// The layouts of a cleared project: one empty layout named `Default`.
pub fn default_layouts() -> (layouts: Vec<Layout>)
    ensures
        layouts@.len() == 1,
        layouts@[0].id@ == "Default"@,
        layouts@[0].controls@.len() == 0,
{
    let id = "Default".to_string();
    proof {
        vstd::string::to_string_from_display_ensures_for_str("Default", id);
    }
    let mut layouts: Vec<Layout> = Vec::new();
    layouts.push(Layout { id, controls: Vec::new() });
    layouts
}

/// A copy of a control.
fn copy_control(control: &ControlConfig) -> (r: ControlConfig)
    ensures
        r == *control,
{
    match &control.control_type {
        ControlType::Node { path } => ControlConfig {
            control_type: ControlType::Node { path: path.clone() },
        },
        ControlType::Other => ControlConfig { control_type: ControlType::Other },
    }
}

/// A copy of a layout's controls.
fn copy_controls(controls: &Vec<ControlConfig>) -> (r: Vec<ControlConfig>)
    ensures
        r@ == controls@,
{
    let mut r: Vec<ControlConfig> = Vec::new();
    let mut i: usize = 0;
    while i < controls.len()
        invariant
            i <= controls@.len(),
            r@ == controls@.take(i as int),
        decreases controls.len() - i,
    {
        r.push(copy_control(&controls[i]));
        proof {
            assert(controls@.take(i + 1) =~= controls@.take(i as int).push(controls@[i as int]));
        }
        i = i + 1;
    }
    proof {
        assert(controls@.take(controls@.len() as int) =~= controls@);
    }
    r
}

/// The coordinator's own state around the pipeline: the layouts, the views
/// that publish their values, the processors' priorities, and what the UI
/// asked to have refreshed.
pub struct CoordinatorRuntime {
    layouts: Vec<Layout>,
    layouts_view: LayoutsView,
    processors: Vec<ProcessorPriorities>,
    read_node_settings: Vec<String>,
    read_node_metadata: bool,
}

impl CoordinatorRuntime {
    /// The layouts.
    pub closed spec fn layouts(self) -> Seq<Layout> {
        self.layouts@
    }

    /// The layout views.
    pub closed spec fn published_view(self) -> LayoutsView {
        self.layouts_view
    }

    /// The priorities of the processors, in the order they were added.
    pub closed spec fn processor_priorities(self) -> Seq<ProcessorPriorities> {
        self.processors@
    }

    /// The nodes whose settings are watched.
    pub closed spec fn watched_settings(self) -> Seq<String> {
        self.read_node_settings@
    }

    /// Whether node metadata is read each tick.
    pub closed spec fn reads_node_metadata(self) -> bool {
        self.read_node_metadata
    }

    /// A runtime without layouts, published values or processors, that
    /// watches nothing.
    pub fn new() -> (r: Self)
        ensures
            r.layouts().len() == 0,
            r.published_view().is_empty(),
            r.processor_priorities().len() == 0,
            r.watched_settings().len() == 0,
            !r.reads_node_metadata(),
    {
        CoordinatorRuntime {
            layouts: Vec::new(),
            layouts_view: LayoutsView::default(),
            processors: Vec::new(),
            read_node_settings: Vec::new(),
            read_node_metadata: false,
        }
    }

    /// The published layout views.
    pub fn layouts_view(&self) -> (r: &LayoutsView)
        ensures
            r == self.published_view(),
    {
        &self.layouts_view
    }

    /// Replaces the layouts by those of a project's `(id, controls)` pairs.
    pub fn add_layouts(&mut self, pairs: Vec<(String, Vec<ControlConfig>)>)
        ensures
            layouts_match_pairs(final(self).layouts(), pairs@),
            final(self).published_view() == old(self).published_view(),
            final(self).processor_priorities() == old(self).processor_priorities(),
            final(self).watched_settings() == old(self).watched_settings(),
            final(self).reads_node_metadata() == old(self).reads_node_metadata(),
    {
        self.layouts = add_layouts(pairs);
    }

    /// The layouts as the `(id, controls)` pairs a project keeps.
    pub fn save_layouts(&self) -> (pairs: Vec<(String, Vec<ControlConfig>)>)
        ensures
            layouts_match_pairs(self.layouts(), pairs@),
    {
        let mut pairs: Vec<(String, Vec<ControlConfig>)> = Vec::new();
        let mut i: usize = 0;
        while i < self.layouts.len()
            invariant
                i <= self.layouts@.len(),
                layouts_match_pairs(self.layouts@.take(i as int), pairs@),
            decreases self.layouts.len() - i,
        {
            let layout = &self.layouts[i];
            pairs.push((layout.id.clone(), copy_controls(&layout.controls)));
            proof {
                assert(self.layouts@.take(i + 1) =~= self.layouts@.take(i as int).push(
                    self.layouts@[i as int],
                ));
            }
            i = i + 1;
        }
        proof {
            assert(self.layouts@.take(self.layouts@.len() as int) =~= self.layouts@);
        }
        pairs
    }

    /// Clears the layouts to one empty layout named `Default`.
    pub fn clear_layouts(&mut self)
        ensures
            final(self).layouts().len() == 1,
            final(self).layouts()[0].id@ == "Default"@,
            final(self).layouts()[0].controls@.len() == 0,
            final(self).published_view() == old(self).published_view(),
            final(self).processor_priorities() == old(self).processor_priorities(),
            final(self).watched_settings() == old(self).watched_settings(),
            final(self).reads_node_metadata() == old(self).reads_node_metadata(),
    {
        self.layouts = default_layouts();
    }

    /// Adds a processor with the given priorities.
    pub fn add_processor(&mut self, priorities: ProcessorPriorities)
        ensures
            final(self).processor_priorities() == old(self).processor_priorities().push(priorities),
            final(self).layouts() == old(self).layouts(),
            final(self).published_view() == old(self).published_view(),
            final(self).watched_settings() == old(self).watched_settings(),
            final(self).reads_node_metadata() == old(self).reads_node_metadata(),
    {
        self.processors.push(priorities);
    }

    /// Sets the nodes whose settings are watched.
    pub fn set_read_node_settings(&mut self, paths: Vec<String>)
        ensures
            final(self).watched_settings() == paths@,
            final(self).layouts() == old(self).layouts(),
            final(self).published_view() == old(self).published_view(),
            final(self).processor_priorities() == old(self).processor_priorities(),
            final(self).reads_node_metadata() == old(self).reads_node_metadata(),
    {
        self.read_node_settings = paths;
    }

    /// Sets whether node metadata is read each tick.
    pub fn set_read_node_metadata(&mut self, read: bool)
        ensures
            final(self).reads_node_metadata() == read,
            final(self).layouts() == old(self).layouts(),
            final(self).published_view() == old(self).published_view(),
            final(self).processor_priorities() == old(self).processor_priorities(),
            final(self).watched_settings() == old(self).watched_settings(),
    {
        self.read_node_metadata = read;
    }

    /// The plan of the next tick.
    pub fn plan_tick(&self) -> (plan: TickPlan)
        ensures
            is_priority_order(
                phase_priorities(self.processor_priorities(), |p: ProcessorPriorities| p.pre_process),
                plan.pre_process@,
            ),
            is_priority_order(
                phase_priorities(self.processor_priorities(), |p: ProcessorPriorities| p.process),
                plan.process@,
            ),
            is_priority_order(
                phase_priorities(self.processor_priorities(), |p: ProcessorPriorities| p.post_process),
                plan.post_process@,
            ),
            plan.refresh_settings == (self.watched_settings().len() > 0),
            plan.refresh_metadata == self.reads_node_metadata(),
    {
        plan_tick(&self.processors, &self.read_node_settings, self.read_node_metadata)
    }

    /// The nodes whose settings are watched.
    pub fn read_node_settings(&self) -> (r: &Vec<String>)
        ensures
            r@ == self.watched_settings(),
    {
        &self.read_node_settings
    }

    /// The settings message of a tick: empty when nothing is watched,
    /// otherwise the settings the pipeline gave for the watched nodes.
    pub fn node_settings_message<S>(&self, fetched: PathMap<S>) -> (r: PathMap<S>)
        ensures
            r@ == (if self.watched_settings().len() == 0 {
                Map::<Seq<char>, S>::empty()
            } else {
                fetched@
            }),
    {
        node_settings_message(&self.read_node_settings, fetched)
    }

    /// The paths of the nodes that the layouts show: each once, ascending.
    pub fn layout_node_paths(&self) -> (r: Vec<String>)
        ensures
            strictly_sorted_chars(string_views(r@)),
            forall|p: Seq<char>|
                string_views(r@).contains(p) <==> layouts_show_path(
                    self.layouts(),
                    self.layouts().len() as int,
                    p,
                ),
    {
        layout_node_paths(&self.layouts)
    }

    /// Publishes one tick's readings in the layout views; returns how many
    /// kinds of value changed.
    pub fn read_states_into_view(&mut self, readings: NodeReadings) -> (changed: usize)
        ensures
            changed == readings.changes(old(self).published_view()),
            readings.publishes(old(self).published_view(), final(self).published_view()),
            final(self).layouts() == old(self).layouts(),
            final(self).processor_priorities() == old(self).processor_priorities(),
            final(self).watched_settings() == old(self).watched_settings(),
            final(self).reads_node_metadata() == old(self).reads_node_metadata(),
    {
        read_states_into_view(&mut self.layouts_view, readings)
    }
}

} // verus!
