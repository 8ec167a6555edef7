use terminal_orbit::mesh::{ac3d_ops, find_model, tri_line_words, AcOp};

fn lines(text: &str) -> Vec<String> {
    text.lines().map(|l| l.to_string()).collect()
}

fn strings(v: &[&str]) -> Vec<String> {
    v.iter().map(|s| s.to_string()).collect()
}

#[test]
fn tri_line_has_nine_coordinates_and_a_colour() {
    let w = tri_line_words("  1 2 3   4 5 6 7 8 9 0xff00ff  ").unwrap();
    assert_eq!(w, strings(&["1", "2", "3", "4", "5", "6", "7", "8", "9"]));
    let w = tri_line_words("1 2 3 4 5 6 7 8 9 c extra").unwrap();
    assert_eq!(w.len(), 9);
}

#[test]
fn short_tri_lines_are_skipped() {
    assert_eq!(tri_line_words("1 2 3 4 5 6 7 8 9"), None);
    assert_eq!(tri_line_words(""), None);
}

const BOX: &str = "AC3Db
MATERIAL \"grey\" rgb 0.5 0.5 0.5
OBJECT world
kids 1
OBJECT poly
name \"tri\"
loc 1 0 0
numvert 3
0 0 0
  1 0 0
0 1 0
numsurf 1
SURF 0x10
mat 0
refs 3
0 0 0
1 1 0
2 0 1
kids 0
";

#[test]
fn ac3d_nested_object() {
    let ops = ac3d_ops(&lines(BOX));
    assert_eq!(
        ops,
        vec![
            AcOp::Object,
            AcOp::Object,
            AcOp::Loc("1 0 0".to_string()),
            AcOp::Verts(strings(&["0 0 0", "1 0 0", "0 1 0"])),
            AcOp::Edges(vec![(0, 1), (1, 2), (2, 0)]),
            AcOp::End,
            AcOp::End,
        ]
    );
}

#[test]
fn ac3d_edges_to_missing_vertices_are_dropped() {
    let text = "OBJECT poly\nnumvert 2\n0 0 0\n1 1 1\nnumsurf 1\nSURF 0\nrefs 3\n0\n1\n7\n";
    let ops = ac3d_ops(&lines(text));
    assert_eq!(
        ops,
        vec![
            AcOp::Object,
            AcOp::Verts(strings(&["0 0 0", "1 1 1"])),
            AcOp::Edges(vec![(0, 1)]),
            AcOp::End,
        ]
    );
}

#[test]
fn ac3d_without_object_has_no_steps() {
    assert!(ac3d_ops(&lines("AC3Db\nMATERIAL x\n")).is_empty());
    assert!(ac3d_ops(&Vec::new()).is_empty());
}

#[test]
fn ac3d_short_vertex_list_stops_at_end() {
    let text = "OBJECT poly\nnumvert 5\n1 2 3\n";
    let ops = ac3d_ops(&lines(text));
    assert_eq!(ops, vec![AcOp::Object, AcOp::Verts(strings(&["1 2 3"])), AcOp::End]);
}

#[test]
fn ac3d_surface_search_stops_at_kids() {
    let text = "OBJECT a\nnumvert 1\n0 0 0\nnumsurf 2\nkids 1\nOBJECT b\nloc 0 0 1\n";
    let ops = ac3d_ops(&lines(text));
    assert_eq!(
        ops,
        vec![
            AcOp::Object,
            AcOp::Verts(strings(&["0 0 0"])),
            AcOp::Object,
            AcOp::Loc("0 0 1".to_string()),
            AcOp::End,
            AcOp::End,
        ]
    );
}

#[test]
fn ac3d_bad_counts_read_as_zero() {
    let text = "OBJECT a\nnumvert lots\n0 0 0\n";
    let ops = ac3d_ops(&lines(text));
    assert_eq!(ops, vec![AcOp::Object, AcOp::Verts(vec![]), AcOp::End]);
}

fn well_formed(ops: &[AcOp]) -> bool {
    let mut stack: Vec<usize> = Vec::new();
    for op in ops {
        match op {
            AcOp::Object => stack.push(0),
            AcOp::Loc(_) => {
                if stack.is_empty() {
                    return false;
                }
            }
            AcOp::Verts(v) => match stack.last_mut() {
                Some(top) => *top = v.len(),
                None => return false,
            },
            AcOp::Edges(es) => match stack.last() {
                Some(top) => {
                    if es.iter().any(|(a, b)| a >= top || b >= top) {
                        return false;
                    }
                }
                None => return false,
            },
            AcOp::End => {
                if stack.pop().is_none() {
                    return false;
                }
            }
        }
    }
    stack.is_empty()
}

#[test]
fn model_steps_are_well_formed() {
    let messy = "junk\nOBJECT a\nnumsurf 1\nSURF\nrefs 2\n0\n1\nnumvert 2\n1 1 1\n2 2 2\n\
                 kids 2\nOBJECT b\nnumvert 1\n0 0 0\nnumsurf 1\nSURF 1\nrefs 2\n0\n0\n\
                 kids 0\nnumvert 9\nOBJECT c\nnumsurf 3\n";
    for text in [BOX, messy, "", "OBJECT x\n"] {
        let ops = ac3d_ops(&lines(text));
        assert!(well_formed(&ops), "{text:?}");
    }
}

#[test]
fn model_found_by_name_ignoring_case() {
    let names = strings(&["fighter", "Cruiser", "cruiser"]);
    assert_eq!(find_model(&names, "CRUISER"), Some(1));
    assert_eq!(find_model(&names, "fighter"), Some(0));
    assert_eq!(find_model(&names, "freighter"), None);
    assert_eq!(find_model(&Vec::new(), "fighter"), None);
}
