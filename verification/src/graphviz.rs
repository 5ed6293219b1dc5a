//! Drawing the include graph in the Graphviz language: one cluster per
//! project rooted at a `.sp` file, and a diamond for each such root.
use vstd::prelude::*;
use crate::base_db::{FileExtension, FileId};
use crate::diagnostics::{decimal, push_decimal};
use crate::graph::{Edge, Graph, SubGraph};
use crate::pattern::opt_string_view;
use crate::text::{join_spec, join_strings, push_str, strings_view};

verus! {

/// The number of colours that clusters cycle through.
pub const NUM_COLORS: usize = 88;

/// The colour of the `i`-th cluster, `i` below the number of colours.
pub open spec fn graph_color(i: usize) -> Seq<char> {
    match i {
        0 => "aliceblue"@,
        1 => "antiquewhite"@,
        2 => "aqua"@,
        3 => "aquamarine"@,
        4 => "azure"@,
        5 => "beige"@,
        6 => "bisque"@,
        7 => "black"@,
        8 => "blanchedalmond"@,
        9 => "blue"@,
        10 => "blueviolet"@,
        11 => "brown"@,
        12 => "burlywood"@,
        13 => "cadetblue"@,
        14 => "chartreuse"@,
        15 => "chocolate"@,
        16 => "coral"@,
        17 => "cornflowerblue"@,
        18 => "cornsilk"@,
        19 => "crimson"@,
        20 => "cyan"@,
        21 => "darkblue"@,
        22 => "darkcyan"@,
        23 => "darkgoldenrod"@,
        24 => "darkgray"@,
        25 => "darkgreen"@,
        26 => "darkkhaki"@,
        27 => "darkmagenta"@,
        28 => "darkolivegreen"@,
        29 => "darkorange"@,
        30 => "darkorchid"@,
        31 => "darkred"@,
        32 => "darksalmon"@,
        33 => "darkseagreen"@,
        34 => "darkslateblue"@,
        35 => "darkslategray"@,
        36 => "darkturquoise"@,
        37 => "darkviolet"@,
        38 => "deeppink"@,
        39 => "deepskyblue"@,
        40 => "dimgray"@,
        41 => "dodgerblue"@,
        42 => "firebrick"@,
        43 => "floralwhite"@,
        44 => "forestgreen"@,
        45 => "fuchsia"@,
        46 => "gainsboro"@,
        47 => "ghostwhite"@,
        48 => "gold"@,
        49 => "goldenrod"@,
        50 => "gray"@,
        51 => "green"@,
        52 => "greenyellow"@,
        53 => "honeydew"@,
        54 => "hotpink"@,
        55 => "indianred"@,
        56 => "indigo"@,
        57 => "ivory"@,
        58 => "khaki"@,
        59 => "lavender"@,
        60 => "lavenderblush"@,
        61 => "lawngreen"@,
        62 => "lemonchiffon"@,
        63 => "lightblue"@,
        64 => "lightcoral"@,
        65 => "lightcyan"@,
        66 => "lightgoldenrodyellow"@,
        67 => "lightgray"@,
        68 => "lightgreen"@,
        69 => "lightpink"@,
        70 => "lightsalmon"@,
        71 => "lightseagreen"@,
        72 => "lightskyblue"@,
        73 => "lightslategray"@,
        74 => "lightsteelblue"@,
        75 => "lightyellow"@,
        76 => "lime"@,
        77 => "limegreen"@,
        78 => "linen"@,
        79 => "magenta"@,
        80 => "maroon"@,
        81 => "mediumaquamarine"@,
        82 => "mediumblue"@,
        83 => "mediumorchid"@,
        84 => "mediumpurple"@,
        85 => "mediumseagreen"@,
        86 => "mediumslateblue"@,
        87 => "mediumspringgreen"@,
        _ => seq![],
    }
}

/// The colour of the `i`-th cluster.
fn color(i: usize) -> (res: &'static str)
    requires
        i < NUM_COLORS,
    ensures
        res@ == graph_color(i),
{
    match i {
        0 => "aliceblue",
        1 => "antiquewhite",
        2 => "aqua",
        3 => "aquamarine",
        4 => "azure",
        5 => "beige",
        6 => "bisque",
        7 => "black",
        8 => "blanchedalmond",
        9 => "blue",
        10 => "blueviolet",
        11 => "brown",
        12 => "burlywood",
        13 => "cadetblue",
        14 => "chartreuse",
        15 => "chocolate",
        16 => "coral",
        17 => "cornflowerblue",
        18 => "cornsilk",
        19 => "crimson",
        20 => "cyan",
        21 => "darkblue",
        22 => "darkcyan",
        23 => "darkgoldenrod",
        24 => "darkgray",
        25 => "darkgreen",
        26 => "darkkhaki",
        27 => "darkmagenta",
        28 => "darkolivegreen",
        29 => "darkorange",
        30 => "darkorchid",
        31 => "darkred",
        32 => "darksalmon",
        33 => "darkseagreen",
        34 => "darkslateblue",
        35 => "darkslategray",
        36 => "darkturquoise",
        37 => "darkviolet",
        38 => "deeppink",
        39 => "deepskyblue",
        40 => "dimgray",
        41 => "dodgerblue",
        42 => "firebrick",
        43 => "floralwhite",
        44 => "forestgreen",
        45 => "fuchsia",
        46 => "gainsboro",
        47 => "ghostwhite",
        48 => "gold",
        49 => "goldenrod",
        50 => "gray",
        51 => "green",
        52 => "greenyellow",
        53 => "honeydew",
        54 => "hotpink",
        55 => "indianred",
        56 => "indigo",
        57 => "ivory",
        58 => "khaki",
        59 => "lavender",
        60 => "lavenderblush",
        61 => "lawngreen",
        62 => "lemonchiffon",
        63 => "lightblue",
        64 => "lightcoral",
        65 => "lightcyan",
        66 => "lightgoldenrodyellow",
        67 => "lightgray",
        68 => "lightgreen",
        69 => "lightpink",
        70 => "lightsalmon",
        71 => "lightseagreen",
        72 => "lightskyblue",
        73 => "lightslategray",
        74 => "lightsteelblue",
        75 => "lightyellow",
        76 => "lime",
        77 => "limegreen",
        78 => "linen",
        79 => "magenta",
        80 => "maroon",
        81 => "mediumaquamarine",
        82 => "mediumblue",
        83 => "mediumorchid",
        84 => "mediumpurple",
        85 => "mediumseagreen",
        86 => "mediumslateblue",
        _ => "mediumspringgreen",
    }
}

/// The names of files, as plain values.
pub open spec fn names_view(names: Seq<(FileId, String)>) -> Seq<(FileId, Seq<char>)> {
    names.map_values(|e: (FileId, String)| (e.0, e.1@))
}

/// The name that `names` gives to `id`: the first one listed for it.
pub open spec fn name_of(names: Seq<(FileId, Seq<char>)>, id: FileId) -> Option<Seq<char>>
    decreases names.len(),
{
    if names.len() == 0 {
        None
    } else if names[0].0 == id {
        Some(names[0].1)
    } else {
        name_of(names.drop_first(), id)
    }
}

/// `s` between double quotes.
pub open spec fn quoted(s: Seq<char>) -> Seq<char> {
    "\""@ + s + "\""@
}

/// The line of an edge from `a` to `b`.
pub open spec fn edge_line(a: Seq<char>, b: Seq<char>) -> Seq<char> {
    quoted(a) + " -> "@ + quoted(b) + ";"@
}

/// The line that marks the root `a`.
pub open spec fn root_line(a: Seq<char>) -> Seq<char> {
    quoted(a) + " [shape=Mdiamond];"@
}

/// The lines that open the `i`-th cluster.
pub open spec fn cluster_header(i: nat) -> Seq<char> {
    "  subgraph cluster_"@ + decimal(i) + " {\n    style=filled;\n    color="@ + graph_color((i % 88) as usize)
        + ";\n    node [style=filled,color=white];\n    label = \"Project n\u{b0}"@ + decimal(i) + "\";"@
}

/// `pre` before the lines of `o`, when there are lines.
pub open spec fn opt_prepend(pre: Seq<Seq<char>>, o: Option<Seq<Seq<char>>>) -> Option<Seq<Seq<char>>> {
    match o {
        Some(r) => Some(pre + r),
        None => None,
    }
}

/// The lines of `edges`; `None` when a file has no name.
pub open spec fn edge_lines(edges: Seq<Edge>, names: Seq<(FileId, Seq<char>)>) -> Option<Seq<Seq<char>>>
    decreases edges.len(),
{
    if edges.len() == 0 {
        Some(seq![])
    } else {
        match (name_of(names, edges[0].source.file_id), name_of(names, edges[0].target.file_id)) {
            (Some(a), Some(b)) => opt_prepend(seq![edge_line(a, b)], edge_lines(edges.drop_first(), names)),
            _ => None,
        }
    }
}

/// The clusters of the sub-graphs of `sgs` rooted at a `.sp` file, the first
/// one numbered `i`; `None` when a file has no name.
pub open spec fn cluster_lines(sgs: Seq<SubGraph>, names: Seq<(FileId, Seq<char>)>, i: nat) -> Option<Seq<Seq<char>>>
    decreases sgs.len(),
{
    if sgs.len() == 0 {
        Some(seq![])
    } else if sgs[0].root.extension is Sp {
        match edge_lines(sgs[0].edges@, names) {
            Some(e) => opt_prepend(
                seq![cluster_header(i)] + e + seq!["}"@],
                cluster_lines(sgs.drop_first(), names, i + 1),
            ),
            None => None,
        }
    } else {
        cluster_lines(sgs.drop_first(), names, i)
    }
}

/// The root lines of the sub-graphs of `sgs` rooted at a `.sp` file; `None`
/// when a root has no name.
pub open spec fn root_lines(sgs: Seq<SubGraph>, names: Seq<(FileId, Seq<char>)>) -> Option<Seq<Seq<char>>>
    decreases sgs.len(),
{
    if sgs.len() == 0 {
        Some(seq![])
    } else if sgs[0].root.extension is Sp {
        match name_of(names, sgs[0].root.file_id) {
            Some(a) => opt_prepend(seq![root_line(a)], root_lines(sgs.drop_first(), names)),
            None => None,
        }
    } else {
        root_lines(sgs.drop_first(), names)
    }
}

/// The Graphviz text of the sub-graphs `sgs`, or `None` when a file that it
/// shows has no name.
pub open spec fn spec_graphviz(sgs: Seq<SubGraph>, names: Seq<(FileId, Seq<char>)>) -> Option<Seq<char>> {
    match (cluster_lines(sgs, names, 0), root_lines(sgs, names)) {
        (Some(c), Some(r)) => Some(join_spec(seq!["digraph G {"@] + c + r + seq!["}"@], "\n"@)),
        _ => None,
    }
}

/// `sgs` is a list of the sub-graphs of `g`: one per root, each spanning
/// what its root reaches.
pub open spec fn is_subgraph_list(g: &Graph, sgs: Seq<SubGraph>) -> bool {
    &&& forall|i: int| 0 <= i < sgs.len() ==> (#[trigger] sgs[i]).spans(g)
    &&& forall|i: int| 0 <= i < sgs.len() ==> g.is_root((#[trigger] sgs[i]).root.file_id.0)
    &&& forall|i: int, j: int| 0 <= i < j < sgs.len() ==> sgs[i].root.file_id.0 != sgs[j].root.file_id.0
    &&& forall|x: u32| g.is_root(x) ==> exists|i: int| 0 <= i < sgs.len() && (#[trigger] sgs[i]).root.file_id.0 == x
}

/// The name that `names` gives to `id`.
fn name_for(names: &Vec<(FileId, String)>, id: FileId) -> (res: Option<String>)
    ensures
        opt_string_view(res) == name_of(names_view(names@), id),
{
    let ghost nv = names_view(names@);
    let mut i: usize = 0;
    assert(nv.skip(0) =~= nv);
    while i < names.len()
        invariant
            0 <= i <= names.len(),
            nv == names_view(names@),
            name_of(nv, id) == name_of(nv.skip(i as int), id),
        decreases names.len() - i,
    {
        assert(nv.skip(i as int)[0] == nv[i as int]);
        if names[i].0 == id {
            return Some(names[i].1.clone());
        }
        assert(nv.skip(i as int).drop_first() =~= nv.skip(i + 1));
        i = i + 1;
    }
    assert(nv.skip(i as int).len() == 0);
    None
}

/// `"name"`, the name between double quotes.
fn quote(name: &str) -> (res: String)
    ensures
        res@ == quoted(name@),
{
    let mut s = "\"".to_owned();
    push_str(&mut s, name);
    push_str(&mut s, "\"");
    s
}

/// Appends the lines of `edges`; `false`, with some lines appended, when a
/// file has no name.
fn push_edge_lines(edges: &Vec<Edge>, names: &Vec<(FileId, String)>, out: &mut Vec<String>) -> (ok: bool)
    ensures
        opt_prepend(strings_view(old(out)@), edge_lines(edges@, names_view(names@)))
            == if ok { Some(strings_view(final(out)@)) } else { None },
{
    let ghost nv = names_view(names@);
    let mut i: usize = 0;
    assert(edges@.skip(0) =~= edges@);
    while i < edges.len()
        invariant
            0 <= i <= edges.len(),
            nv == names_view(names@),
            opt_prepend(strings_view(out@), edge_lines(edges@.skip(i as int), nv))
                == opt_prepend(strings_view(old(out)@), edge_lines(edges@, nv)),
        decreases edges.len() - i,
    {
        let ghost rest = edges@.skip(i as int);
        assert(rest[0] == edges@[i as int]);
        assert(rest.drop_first() =~= edges@.skip(i + 1));
        let a = match name_for(names, edges[i].source.file_id) {
            Some(a) => a,
            None => return false,
        };
        let b = match name_for(names, edges[i].target.file_id) {
            Some(b) => b,
            None => return false,
        };
        let mut line = quote(a.as_str());
        push_str(&mut line, " -> ");
        let qb = quote(b.as_str());
        push_str(&mut line, qb.as_str());
        push_str(&mut line, ";");
        let ghost before = strings_view(out@);
        out.push(line);
        proof {
            assert(strings_view(out@) =~= before.push(edge_line(a@, b@)));
            match edge_lines(edges@.skip(i + 1), nv) {
                Some(r) => {
                    assert(before.push(edge_line(a@, b@)) + r =~= before + (seq![edge_line(a@, b@)] + r));
                },
                None => {},
            }
        }
        i = i + 1;
    }
    assert(edges@.skip(i as int).len() == 0);
    assert(strings_view(out@) + seq![] =~= strings_view(out@));
    true
}

/// The header of the `i`-th cluster.
fn cluster_header_string(i: usize) -> (res: String)
    ensures
        res@ == cluster_header(i as nat),
{
    let mut s = "  subgraph cluster_".to_owned();
    push_decimal(&mut s, i);
    push_str(&mut s, " {\n    style=filled;\n    color=");
    push_str(&mut s, color(i % NUM_COLORS));
    push_str(&mut s, ";\n    node [style=filled,color=white];\n    label = \"Project n\u{b0}");
    push_decimal(&mut s, i);
    push_str(&mut s, "\";");
    s
}

/// The Graphviz text of the sub-graphs `sgs`, with the files named by
/// `names`; `None` when a file that it shows has no name.
pub fn render_graphviz(sgs: &Vec<SubGraph>, names: &Vec<(FileId, String)>) -> (res: Option<String>)
    ensures
        opt_string_view(res) == spec_graphviz(sgs@, names_view(names@)),
{
    let ghost nv = names_view(names@);
    let mut out: Vec<String> = Vec::new();
    out.push("digraph G {".to_owned());
    let ghost start = strings_view(out@);
    assert(start =~= seq!["digraph G {"@]);
    assert(sgs@.skip(0) =~= sgs@);
    let mut k: usize = 0;
    let mut count: usize = 0;
    while k < sgs.len()
        invariant
            0 <= count <= k <= sgs.len(),
            nv == names_view(names@),
            opt_prepend(strings_view(out@), cluster_lines(sgs@.skip(k as int), nv, count as nat))
                == opt_prepend(start, cluster_lines(sgs@, nv, 0)),
        decreases sgs.len() - k,
    {
        let ghost rest = sgs@.skip(k as int);
        assert(rest[0] == sgs@[k as int]);
        assert(rest.drop_first() =~= sgs@.skip(k + 1));
        match sgs[k].root.extension {
            FileExtension::Sp => {
                let ghost before = strings_view(out@);
                out.push(cluster_header_string(count));
                let ghost with_header = strings_view(out@);
                if !push_edge_lines(&sgs[k].edges, names, &mut out) {
                    return None;
                }
                let ghost with_edges = strings_view(out@);
                out.push("}".to_owned());
                proof {
                    let e = edge_lines(sgs@[k as int].edges@, nv)->Some_0;
                    assert(with_header =~= before.push(cluster_header(count as nat)));
                    assert(with_edges == with_header + e);
                    assert(strings_view(out@) =~= with_edges.push("}"@));
                    assert(strings_view(out@) =~= before + (seq![cluster_header(count as nat)] + e + seq!["}"@]));
                    match cluster_lines(sgs@.skip(k + 1), nv, (count + 1) as nat) {
                        Some(r) => {
                            assert(strings_view(out@) + r =~= before + (seq![cluster_header(count as nat)] + e + seq!["}"@] + r));
                        },
                        None => {},
                    }
                }
                count = count + 1;
            },
            FileExtension::Inc => {},
        }
        k = k + 1;
    }
    assert(sgs@.skip(k as int).len() == 0);
    let ghost clusters = strings_view(out@);
    assert(clusters + seq![] =~= clusters);
    let mut k: usize = 0;
    assert(sgs@.skip(0) =~= sgs@);
    while k < sgs.len()
        invariant
            0 <= k <= sgs.len(),
            nv == names_view(names@),
            opt_prepend(strings_view(out@), root_lines(sgs@.skip(k as int), nv))
                == opt_prepend(clusters, root_lines(sgs@, nv)),
        decreases sgs.len() - k,
    {
        let ghost rest = sgs@.skip(k as int);
        assert(rest[0] == sgs@[k as int]);
        assert(rest.drop_first() =~= sgs@.skip(k + 1));
        match sgs[k].root.extension {
            FileExtension::Sp => {
                let a = match name_for(names, sgs[k].root.file_id) {
                    Some(a) => a,
                    None => return None,
                };
                let mut line = quote(a.as_str());
                push_str(&mut line, " [shape=Mdiamond];");
                let ghost before = strings_view(out@);
                out.push(line);
                proof {
                    assert(strings_view(out@) =~= before.push(root_line(a@)));
                    match root_lines(sgs@.skip(k + 1), nv) {
                        Some(r) => {
                            assert(strings_view(out@) + r =~= before + (seq![root_line(a@)] + r));
                        },
                        None => {},
                    }
                }
            },
            FileExtension::Inc => {},
        }
        k = k + 1;
    }
    assert(sgs@.skip(k as int).len() == 0);
    let ghost with_roots = strings_view(out@);
    out.push("}".to_owned());
    proof {
        let c = cluster_lines(sgs@, nv, 0)->Some_0;
        let r = root_lines(sgs@, nv)->Some_0;
        assert(with_roots + seq![] =~= with_roots);
        assert(clusters == start + c);
        assert(with_roots == clusters + r);
        assert(strings_view(out@) =~= with_roots.push("}"@));
        assert(strings_view(out@) =~= seq!["digraph G {"@] + c + r + seq!["}"@]);
    }
    Some(join_strings(&out, "\n"))
}

impl Graph {
    /// The Graphviz text of the graph's projects, with the files named by
    /// `names`; `None` when a file that it shows has no name.
    pub fn to_graphviz(&self, names: &Vec<(FileId, String)>) -> (res: Option<String>)
        requires
            self.wf(),
        ensures
            exists|sgs: Seq<SubGraph>| is_subgraph_list(self, sgs)
                && opt_string_view(res) == spec_graphviz(sgs, names_view(names@)),
    {
        let subgraphs = self.find_subgraphs();
        let res = render_graphviz(&subgraphs, names);
        assert(is_subgraph_list(self, subgraphs@));
        res
    }
}

} // verus!
