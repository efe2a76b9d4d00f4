//! The cube/face model: colors, attributes, faces, cubes, and the layout
//! engine that turns a model into a list of drawing primitives with a
//! computed viewbox.

use vstd::prelude::*;
use vstd::string::StrSliceExecFns;
use vstd::string::StringExecFns;

verus! {

/// One facelet color. `Mask` is the unspecified/background placeholder and
/// also the fixed stroke color of every drawn cell.
#[derive(Clone, Copy, PartialEq, Eq, Structural, Debug)]
pub enum Color {
    White,
    Yellow,
    Red,
    Orange,
    Blue,
    Green,
    Mask,
}

impl Color {
    /// The fixed hex code each color is painted with.
    pub open spec fn spec_rgb(self) -> Seq<char> {
        match self {
            Color::White => "#f9f9f9"@,
            Color::Yellow => "#ee4"@,
            Color::Red => "#f77"@,
            Color::Orange => "#fa4"@,
            Color::Blue => "#77f"@,
            Color::Green => "#7f7"@,
            Color::Mask => "#c5c5c5"@,
        }
    }

    pub fn rgb(&self) -> (r: String)
        ensures
            r@ == self.spec_rgb(),
    {
        match self {
            Color::White => String::from_str("#f9f9f9"),
            Color::Yellow => String::from_str("#ee4"),
            Color::Red => String::from_str("#f77"),
            Color::Orange => String::from_str("#fa4"),
            Color::Blue => String::from_str("#77f"),
            Color::Green => String::from_str("#7f7"),
            Color::Mask => String::from_str("#c5c5c5"),
        }
    }
}

/// The value of one attribute; today only a string kind exists.
#[derive(Clone, Debug)]
pub enum AttributeValue {
    Str(String),
}

impl View for AttributeValue {
    type V = Seq<char>;

    open spec fn view(&self) -> Seq<char> {
        match self {
            AttributeValue::Str(s) => s@,
        }
    }
}

/// Last-write-wins lookup over a sequence of attribute pairs.
pub open spec fn pairs_lookup(ps: Seq<(String, AttributeValue)>, key: Seq<char>) -> Option<
    AttributeValue,
>
    decreases ps.len(),
{
    if ps.len() == 0 {
        None
    } else if ps.last().0@ == key {
        Some(ps.last().1)
    } else {
        pairs_lookup(ps.drop_last(), key)
    }
}

/// The mapping a sequence of attribute pairs denotes: inserted in encounter
/// order, so a later pair overwrites an earlier one with the same key.
pub open spec fn pairs_map(ps: Seq<(String, AttributeValue)>) -> Map<Seq<char>, Seq<char>>
    decreases ps.len(),
{
    if ps.len() == 0 {
        Map::empty()
    } else {
        pairs_map(ps.drop_last()).insert(ps.last().0@, ps.last().1@)
    }
}

proof fn lemma_pairs_lookup_map(ps: Seq<(String, AttributeValue)>, key: Seq<char>)
    ensures
        pairs_lookup(ps, key) is Some <==> pairs_map(ps).contains_key(key),
        pairs_lookup(ps, key) matches Some(v) ==> pairs_map(ps)[key] == v@,
    decreases ps.len(),
{
    if ps.len() > 0 && ps.last().0@ != key {
        lemma_pairs_lookup_map(ps.drop_last(), key);
    }
}

/// An ordered collection of `name = value` attributes, read as a mapping in
/// which the last write to a key wins.
#[derive(Debug)]
pub struct Attributes {
    pairs: Vec<(String, AttributeValue)>,
}

impl View for Attributes {
    type V = Map<Seq<char>, Seq<char>>;

    closed spec fn view(&self) -> Map<Seq<char>, Seq<char>> {
        pairs_map(self.pairs@)
    }
}

impl Attributes {
    /// The stored value for a key, if any; the last write wins.
    pub closed spec fn spec_get(self, key: Seq<char>) -> Option<AttributeValue> {
        pairs_lookup(self.pairs@, key)
    }

    /// The stored value and the mapping agree on every key.
    pub proof fn lemma_get_view(self, key: Seq<char>)
        ensures
            self.spec_get(key) is Some <==> self@.contains_key(key),
            self.spec_get(key) matches Some(v) ==> self@[key] == v@,
    {
        lemma_pairs_lookup_map(self.pairs@, key);
    }

    pub fn new() -> (r: Attributes)
        ensures
            r@ == Map::<Seq<char>, Seq<char>>::empty(),
            forall|k: Seq<char>| r.spec_get(k) is None,
    {
        Attributes { pairs: Vec::new() }
    }

    pub fn insert(&mut self, key: String, value: AttributeValue)
        ensures
            final(self)@ == old(self)@.insert(key@, value@),
            final(self).spec_get(key@) == Some(value),
            forall|k: Seq<char>|
                k != key@ ==> final(self).spec_get(k) == old(self).spec_get(k),
    {
        let ghost old_pairs = self.pairs@;
        self.pairs.push((key, value));
        proof {
            assert(self.pairs@.drop_last() =~= old_pairs);
        }
    }

    pub fn get(&self, key: &str) -> (r: Option<&AttributeValue>)
        ensures
            match r {
                Some(v) => self.spec_get(key@) == Some(*v),
                None => self.spec_get(key@) is None,
            },
    {
        let mut i: usize = self.pairs.len();
        proof {
            assert(self.pairs@.subrange(0, i as int) =~= self.pairs@);
        }
        while i > 0
            invariant
                i <= self.pairs.len(),
                pairs_lookup(self.pairs@, key@) == pairs_lookup(
                    self.pairs@.subrange(0, i as int),
                    key@,
                ),
            decreases i,
        {
            i = i - 1;
            let entry = &self.pairs[i];
            proof {
                assert(self.pairs@.subrange(0, i + 1).drop_last() =~= self.pairs@.subrange(
                    0,
                    i as int,
                ));
                assert(self.pairs@.subrange(0, i + 1).last() == self.pairs@[i as int]);
            }
            if str_eq(entry.0.as_str(), key) {
                return Some(&entry.1);
            }
        }
        proof {
            assert(self.pairs@.subrange(0, 0) =~= Seq::<(String, AttributeValue)>::empty());
        }
        None
    }
}

/// The nine cells of a 3x3 grid, flattened in row-major order.
pub open spec fn grid_of(data: [[Color; 3]; 3]) -> Seq<Color> {
    Seq::new(9, |k: int| data[k / 3][k % 3])
}

/// The twelve side-strip cells, flattened in top/left/right/bottom order.
pub open spec fn strips_of(side: [[Color; 3]; 4]) -> Seq<Color> {
    Seq::new(12, |k: int| side[k / 3][k % 3])
}

pub open spec fn side_view(side: Option<[[Color; 3]; 4]>) -> Option<Seq<Color>> {
    match side {
        None => None,
        Some(s) => Some(strips_of(s)),
    }
}

/// A single 3x3 colored grid, optionally bordered by four 3-cell side strips,
/// with an attribute mapping.
#[derive(Debug)]
pub struct Face {
    data: [[Color; 3]; 3],
    side: Option<[[Color; 3]; 4]>,
    attr: Attributes,
}

impl Face {
    /// The nine grid cells in row-major order.
    pub closed spec fn grid(self) -> Seq<Color> {
        grid_of(self.data)
    }

    /// The four side strips flattened in top/left/right/bottom order, if the
    /// face has them.
    pub closed spec fn side_strips(self) -> Option<Seq<Color>> {
        side_view(self.side)
    }

    pub closed spec fn attrs(self) -> Attributes {
        self.attr
    }

    /// Every face has exactly nine grid cells, and twelve strip cells when
    /// strips are present.
    pub proof fn lemma_shape(self)
        ensures
            self.grid().len() == 9,
            self.side_strips() matches Some(t) ==> t.len() == 12,
    {
    }

    pub fn new(data: [[Color; 3]; 3], side: Option<[[Color; 3]; 4]>, attr: Attributes) -> (r: Face)
        ensures
            r.grid() == grid_of(data),
            r.side_strips() == side_view(side),
            r.attrs() == attr,
    {
        Face { data, side, attr }
    }
}

/// One 3x3 face taken out of the row/column net, with no strips and no
/// attributes of its own.
fn face_from_lines(lines: &Vec<Vec<Color>>, r0: usize, c0: usize) -> (r: Face)
    requires
        r0 + 3 <= lines@.len(),
        forall|j: int| r0 <= j < r0 + 3 ==> #[trigger] lines@[j]@.len() >= c0 + 3,
    ensures
        r.grid().len() == 9,
        forall|k: int|
            0 <= k < 9 ==> #[trigger] r.grid()[k] == lines@[r0 + k / 3]@[c0 + k % 3],
        r.side_strips() is None,
        r.attrs()@ == Map::<Seq<char>, Seq<char>>::empty(),
        forall|key: Seq<char>| r.attrs().spec_get(key) is None,
{
    // The exec lengths bound the views by usize::MAX, so the index
    // arithmetic below cannot overflow.
    let nl: usize = lines.len();
    let row0 = &lines[r0];
    let row1 = &lines[r0 + 1];
    let row2 = &lines[r0 + 2];
    let n0: usize = row0.len();
    let n1: usize = row1.len();
    let n2: usize = row2.len();
    proof {
        assert(r0 + 3 <= nl);
        assert(c0 + 3 <= n0 && c0 + 3 <= n1 && c0 + 3 <= n2);
    }
    let data: [[Color; 3]; 3] = [
        [row0[c0], row0[c0 + 1], row0[c0 + 2]],
        [row1[c0], row1[c0 + 1], row1[c0 + 2]],
        [row2[c0], row2[c0 + 1], row2[c0 + 2]],
    ];
    let f = Face { data, side: None, attr: Attributes::new() };
    proof {
        assert forall|k: int| 0 <= k < 9 implies #[trigger] f.grid()[k] == lines@[r0 + k / 3]@[c0
            + k % 3] by {
            assert(0 <= k / 3 < 3 && 0 <= k % 3 < 3);
        }
    }
    f
}

/// Six faces assembled from an unfolded cube net, with a top-level attribute
/// mapping.
#[derive(Debug)]
pub struct Cube {
    up: Face,
    front: Face,
    right: Face,
    back: Face,
    left: Face,
    down: Face,
    attr: Attributes,
}

impl Cube {
    /// The six faces in up/front/right/back/left/down order.
    pub closed spec fn faces(self) -> Seq<Face> {
        seq![self.up, self.front, self.right, self.back, self.left, self.down]
    }

    pub closed spec fn attrs(self) -> Attributes {
        self.attr
    }

    /// Builds the six faces from nine net rows of widths 3,3,3,12,12,12,3,3,3:
    /// rows 0..3 are the up face, rows 3..6 are quartered into front, right,
    /// back and left, and rows 6..9 are the down face.
    pub fn from(lines: Vec<Vec<Color>>, attr: Attributes) -> (r: Cube)
        requires
            lines@.len() == 9,
            forall|j: int|
                0 <= j < 9 ==> #[trigger] lines@[j]@.len() == (if 3 <= j < 6 {
                    12int
                } else {
                    3int
                }),
        ensures
            r.faces().len() == 6,
            r.attrs() == attr,
            forall|k: int|
                0 <= k < 9 ==> #[trigger] r.faces()[0].grid()[k] == lines@[k / 3]@[k % 3],
            forall|k: int|
                0 <= k < 9 ==> #[trigger] r.faces()[1].grid()[k] == lines@[3 + k / 3]@[k % 3],
            forall|k: int|
                0 <= k < 9 ==> #[trigger] r.faces()[2].grid()[k] == lines@[3 + k / 3]@[3 + k % 3],
            forall|k: int|
                0 <= k < 9 ==> #[trigger] r.faces()[3].grid()[k] == lines@[3 + k / 3]@[6 + k % 3],
            forall|k: int|
                0 <= k < 9 ==> #[trigger] r.faces()[4].grid()[k] == lines@[3 + k / 3]@[9 + k % 3],
            forall|k: int|
                0 <= k < 9 ==> #[trigger] r.faces()[5].grid()[k] == lines@[6 + k / 3]@[k % 3],
            forall|f: int| 0 <= f < 6 ==> (#[trigger] r.faces()[f]).grid().len() == 9,
            forall|f: int| 0 <= f < 6 ==> (#[trigger] r.faces()[f]).side_strips() is None,
            forall|f: int|
                0 <= f < 6 ==> (#[trigger] r.faces()[f]).attrs()@ == Map::<
                    Seq<char>,
                    Seq<char>,
                >::empty(),
            forall|f: int, key: Seq<char>|
                0 <= f < 6 ==> (#[trigger] r.faces()[f].attrs().spec_get(key)) is None,
    {
        let up = face_from_lines(&lines, 0, 0);
        let front = face_from_lines(&lines, 3, 0);
        let right = face_from_lines(&lines, 3, 3);
        let back = face_from_lines(&lines, 3, 6);
        let left = face_from_lines(&lines, 3, 9);
        let down = face_from_lines(&lines, 6, 0);
        Cube { up, front, right, back, left, down, attr }
    }
}

/// The top-level parsed artifact: a lone face or a whole cube.
#[derive(Debug)]
pub enum CubeViz {
    Face(Face),
    Cube(Cube),
}

/// Side of one grid cell.
pub const CUBE_SIZE: i64 = 12;

/// Gap between neighbouring cells, and between the grid and the viewbox edge.
pub const MARGIN: i64 = 2;

/// Thickness of a side strip.
pub const SIDE_SIZE: i64 = 6;

/// Outline width of every drawn rectangle; the outline color is `Color::Mask`.
pub const STROKE_WIDTH: i64 = 1;

/// Font size of the optional label, which also centers horizontally and sits
/// on its own baseline.
pub const FONT_SIZE: i64 = 8;

/// One drawing primitive emitted by the layout engine. Every rectangle is
/// outlined with `Color::Mask` at `STROKE_WIDTH`; a label is horizontally
/// centered and vertically centered on its own baseline.
#[derive(Debug, PartialEq)]
pub enum Primitive {
    FilledRect { x: i64, y: i64, width: i64, height: i64, fill: Color },
    Label { x: i64, y: i64, text: String, font_size: i64 },
}

/// The bounding rectangle that scopes the rendered coordinate space.
#[derive(Clone, Copy, Debug, PartialEq, Eq, Structural)]
pub struct ViewBox {
    pub left: i64,
    pub top: i64,
    pub width: i64,
    pub height: i64,
}

/// A rendered vector document: primitives in paint order plus the viewbox.
#[derive(Debug, PartialEq)]
pub struct Drawing {
    pub prims: Vec<Primitive>,
    pub viewbox: ViewBox,
}

/// The square for grid cell row `r`, column `c`, drawn at block offset
/// `(ox, oy)`.
pub open spec fn cell_rect(ox: int, oy: int, r: int, c: int, fill: Color) -> Primitive {
    (Primitive::FilledRect {
        x: (ox + (MARGIN + CUBE_SIZE) * c) as i64,
        y: (oy + (MARGIN + CUBE_SIZE) * r) as i64,
        width: CUBE_SIZE,
        height: CUBE_SIZE,
        fill,
    })
}

/// The nine grid squares of a face, in row-major order.
pub open spec fn face_grid_prims(f: Face, ox: int, oy: int) -> Seq<Primitive> {
    Seq::new(9, |k: int| cell_rect(ox, oy, k / 3, k % 3, f.grid()[k]))
}

/// The rectangle for strip cell `k` of the flattened top/left/right/bottom
/// strips.
pub open spec fn strip_rect(k: int, fill: Color) -> Primitive {
    if k < 3 {
        (Primitive::FilledRect {
            x: ((MARGIN + CUBE_SIZE) * k) as i64,
            y: (-SIDE_SIZE - MARGIN) as i64,
            width: CUBE_SIZE,
            height: SIDE_SIZE,
            fill,
        })
    } else if k < 6 {
        (Primitive::FilledRect {
            x: (-SIDE_SIZE - MARGIN) as i64,
            y: ((MARGIN + CUBE_SIZE) * (k - 3)) as i64,
            width: SIDE_SIZE,
            height: CUBE_SIZE,
            fill,
        })
    } else if k < 9 {
        (Primitive::FilledRect {
            x: (MARGIN * 3 + CUBE_SIZE * 3) as i64,
            y: ((MARGIN + CUBE_SIZE) * (k - 6)) as i64,
            width: SIDE_SIZE,
            height: CUBE_SIZE,
            fill,
        })
    } else {
        (Primitive::FilledRect {
            x: ((MARGIN + CUBE_SIZE) * (k - 9)) as i64,
            y: (MARGIN * 3 + CUBE_SIZE * 3) as i64,
            width: CUBE_SIZE,
            height: SIDE_SIZE,
            fill,
        })
    }
}

/// The twelve side-strip rectangles for flattened strip cells `t`.
pub open spec fn face_strip_prims(t: Seq<Color>) -> Seq<Primitive> {
    Seq::new(12, |k: int| strip_rect(k, t[k]))
}

/// The attribute the label is read from, if present.
pub open spec fn face_label_value(f: Face) -> Option<AttributeValue> {
    f.attrs().spec_get("label"@)
}

/// The viewbox of a face before the label extension: tight around the grid,
/// widened on every edge when strips are present.
pub open spec fn face_box_prelabel(f: Face) -> ViewBox {
    if f.side_strips() is Some {
        (ViewBox {
            left: (-MARGIN - (MARGIN + SIDE_SIZE)) as i64,
            top: (-MARGIN - (MARGIN + SIDE_SIZE)) as i64,
            width: (MARGIN * 4 + CUBE_SIZE * 3 + 2 * (MARGIN + SIDE_SIZE)) as i64,
            height: (MARGIN * 4 + CUBE_SIZE * 3 + 2 * (MARGIN + SIDE_SIZE)) as i64,
        })
    } else {
        (ViewBox {
            left: (-MARGIN) as i64,
            top: (-MARGIN) as i64,
            width: (MARGIN * 4 + CUBE_SIZE * 3) as i64,
            height: (MARGIN * 4 + CUBE_SIZE * 3) as i64,
        })
    }
}

/// The label primitive for value `v`, placed against the pre-label viewbox.
pub open spec fn face_label_prim(f: Face, v: AttributeValue) -> Primitive {
    let b = face_box_prelabel(f);
    (Primitive::Label {
        x: (b.left + b.width / 2) as i64,
        y: (b.top + b.height + FONT_SIZE) as i64,
        text: match v {
            AttributeValue::Str(s) => s,
        },
        font_size: FONT_SIZE,
    })
}

/// Every primitive of a face, in paint order: grid squares, then strips,
/// then the label.
pub open spec fn face_prims(f: Face) -> Seq<Primitive> {
    let base = face_grid_prims(f, 0, 0) + (match f.side_strips() {
        Some(t) => face_strip_prims(t),
        None => Seq::empty(),
    });
    match face_label_value(f) {
        Some(v) => base.push(face_label_prim(f, v)),
        None => base,
    }
}

/// The final viewbox of a face: the label, when present, extends the height
/// after its own position was computed from the pre-label box.
pub open spec fn face_box(f: Face) -> ViewBox {
    let b = face_box_prelabel(f);
    match face_label_value(f) {
        Some(_) => (ViewBox {
            left: b.left,
            top: b.top,
            width: b.width,
            height: (b.height + MARGIN + FONT_SIZE) as i64,
        }),
        None => b,
    }
}

/// Width (and height) of one face block in the unfolded cube net.
pub open spec fn face_block_size() -> int {
    MARGIN * 4 + CUBE_SIZE * 3
}

/// Every primitive of a cube: the six faces of the unfolded cross net, in
/// left/front/right/back/up/down paint order.
pub open spec fn cube_prims(c: Cube) -> Seq<Primitive> {
    let w = face_block_size();
    face_grid_prims(c.faces()[4], 0, w) + face_grid_prims(c.faces()[1], w, w) + face_grid_prims(
        c.faces()[2],
        2 * w,
        w,
    ) + face_grid_prims(c.faces()[3], 3 * w, w) + face_grid_prims(c.faces()[0], w, 0)
        + face_grid_prims(c.faces()[5], w, 2 * w)
}

/// The fixed bounding box of the 4-wide, 3-tall face net.
pub open spec fn cube_box(c: Cube) -> ViewBox {
    (ViewBox {
        left: (-MARGIN) as i64,
        top: (-MARGIN) as i64,
        width: (face_block_size() * 4) as i64,
        height: (face_block_size() * 3) as i64,
    })
}

/// The primitives a model renders to.
pub open spec fn cv_prims(cv: CubeViz) -> Seq<Primitive> {
    match cv {
        CubeViz::Face(f) => face_prims(f),
        CubeViz::Cube(c) => cube_prims(c),
    }
}

/// The viewbox a model renders to.
pub open spec fn cv_box(cv: CubeViz) -> ViewBox {
    match cv {
        CubeViz::Face(f) => face_box(f),
        CubeViz::Cube(c) => cube_box(c),
    }
}

/// Appends the nine grid squares of `f` at block offset `(ox, oy)`.
fn emit_face_block(prims: &mut Vec<Primitive>, f: &Face, ox: i64, oy: i64)
    requires
        -1000 <= ox <= 1000,
        -1000 <= oy <= 1000,
    ensures
        final(prims)@ == old(prims)@ + face_grid_prims(*f, ox as int, oy as int),
{
    let ghost target = face_grid_prims(*f, ox as int, oy as int);
    let mut k: usize = 0;
    while k < 9
        invariant
            k <= 9,
            -1000 <= ox <= 1000,
            -1000 <= oy <= 1000,
            target == face_grid_prims(*f, ox as int, oy as int),
            prims@ == old(prims)@ + target.take(k as int),
        decreases 9 - k,
    {
        let row = k / 3;
        let col = k % 3;
        let x = ox + (MARGIN + CUBE_SIZE) * (col as i64);
        let y = oy + (MARGIN + CUBE_SIZE) * (row as i64);
        let fill = f.data[row][col];
        prims.push(Primitive::FilledRect { x, y, width: CUBE_SIZE, height: CUBE_SIZE, fill });
        proof {
            assert(fill == f.grid()[k as int]);
            assert(target[k as int] == cell_rect(
                ox as int,
                oy as int,
                k as int / 3,
                k as int % 3,
                f.grid()[k as int],
            ));
            assert(prims@ =~= old(prims)@ + target.take(k + 1));
        }
        k = k + 1;
    }
    proof {
        assert(target.take(9) =~= target);
    }
}

impl Face {
    /// Renders the face to its primitive list and viewbox: nine grid squares,
    /// the twelve strip rectangles when strips are present, and the centered
    /// label when a `label` attribute exists.
    pub fn tosvg(&self) -> (r: Drawing)
        ensures
            r.prims@ == face_prims(*self),
            r.viewbox == face_box(*self),
    {
        let mut prims: Vec<Primitive> = Vec::new();
        emit_face_block(&mut prims, self, 0, 0);
        let mut vleft: i64 = -MARGIN;
        let mut vtop: i64 = -MARGIN;
        let mut vwidth: i64 = MARGIN * 4 + CUBE_SIZE * 3;
        let mut vheight: i64 = MARGIN * 4 + CUBE_SIZE * 3;
        proof {
            assert(prims@ =~= face_grid_prims(*self, 0, 0));
        }
        if let Some(side) = self.side {
            let ghost t = strips_of(side);
            vleft = vleft - (MARGIN + SIDE_SIZE);
            vtop = vtop - (MARGIN + SIDE_SIZE);
            vwidth = vwidth + (MARGIN + SIDE_SIZE) * 2;
            vheight = vheight + (MARGIN + SIDE_SIZE) * 2;
            let mut j: usize = 0;
            while j < 3
                invariant
                    j <= 3,
                    t == strips_of(side),
                    prims@ == face_grid_prims(*self, 0, 0) + face_strip_prims(t).take(j as int),
                decreases 3 - j,
            {
                prims.push(Primitive::FilledRect {
                    x: (MARGIN + CUBE_SIZE) * (j as i64),
                    y: -SIDE_SIZE - MARGIN,
                    width: CUBE_SIZE,
                    height: SIDE_SIZE,
                    fill: side[0][j],
                });
                proof {
                    assert(t[j as int] == side[0][j as int]);
                    assert(prims@ =~= face_grid_prims(*self, 0, 0) + face_strip_prims(t).take(
                        j + 1,
                    ));
                }
                j = j + 1;
            }
            let mut i: usize = 0;
            while i < 3
                invariant
                    i <= 3,
                    t == strips_of(side),
                    prims@ == face_grid_prims(*self, 0, 0) + face_strip_prims(t).take(3 + i),
                decreases 3 - i,
            {
                prims.push(Primitive::FilledRect {
                    x: -SIDE_SIZE - MARGIN,
                    y: (MARGIN + CUBE_SIZE) * (i as i64),
                    width: SIDE_SIZE,
                    height: CUBE_SIZE,
                    fill: side[1][i],
                });
                proof {
                    assert(t[3 + i] == side[1][i as int]);
                    assert(prims@ =~= face_grid_prims(*self, 0, 0) + face_strip_prims(t).take(
                        3 + i + 1,
                    ));
                }
                i = i + 1;
            }
            let mut i: usize = 0;
            while i < 3
                invariant
                    i <= 3,
                    t == strips_of(side),
                    prims@ == face_grid_prims(*self, 0, 0) + face_strip_prims(t).take(6 + i),
                decreases 3 - i,
            {
                prims.push(Primitive::FilledRect {
                    x: MARGIN * 3 + CUBE_SIZE * 3,
                    y: (MARGIN + CUBE_SIZE) * (i as i64),
                    width: SIDE_SIZE,
                    height: CUBE_SIZE,
                    fill: side[2][i],
                });
                proof {
                    assert(t[6 + i] == side[2][i as int]);
                    assert(prims@ =~= face_grid_prims(*self, 0, 0) + face_strip_prims(t).take(
                        6 + i + 1,
                    ));
                }
                i = i + 1;
            }
            let mut j: usize = 0;
            while j < 3
                invariant
                    j <= 3,
                    t == strips_of(side),
                    prims@ == face_grid_prims(*self, 0, 0) + face_strip_prims(t).take(9 + j),
                decreases 3 - j,
            {
                prims.push(Primitive::FilledRect {
                    x: (MARGIN + CUBE_SIZE) * (j as i64),
                    y: MARGIN * 3 + CUBE_SIZE * 3,
                    width: CUBE_SIZE,
                    height: SIDE_SIZE,
                    fill: side[3][j],
                });
                proof {
                    assert(t[9 + j] == side[3][j as int]);
                    assert(prims@ =~= face_grid_prims(*self, 0, 0) + face_strip_prims(t).take(
                        9 + j + 1,
                    ));
                }
                j = j + 1;
            }
            proof {
                assert(face_strip_prims(t).take(12) =~= face_strip_prims(t));
            }
        }
        let ghost base = prims@;
        proof {
            assert(base =~= face_grid_prims(*self, 0, 0) + (match self.side_strips() {
                Some(t2) => face_strip_prims(t2),
                None => Seq::<Primitive>::empty(),
            }));
            let b = face_box_prelabel(*self);
            assert(vleft == b.left && vtop == b.top && vwidth == b.width && vheight == b.height);
        }
        match self.attr.get("label") {
            Some(v) => {
                match v {
                    AttributeValue::Str(label) => {
                        let text = label.clone();
                        prims.push(Primitive::Label {
                            x: vleft + vwidth / 2,
                            y: vtop + vheight + FONT_SIZE,
                            text,
                            font_size: FONT_SIZE,
                        });
                        vheight = vheight + (MARGIN + FONT_SIZE);
                        proof {
                            assert(face_label_value(*self) == Some(*v));
                            assert(prims@ =~= base.push(face_label_prim(*self, *v)));
                        }
                    },
                }
            },
            None => {
                proof {
                    assert(face_label_value(*self) is None);
                }
            },
        }
        Drawing { prims, viewbox: ViewBox { left: vleft, top: vtop, width: vwidth, height: vheight } }
    }
}

impl Cube {
    /// Renders the cube as the unfolded cross net: six plain face blocks and
    /// the fixed net viewbox.
    pub fn tosvg(&self) -> (r: Drawing)
        ensures
            r.prims@ == cube_prims(*self),
            r.viewbox == cube_box(*self),
    {
        let w: i64 = MARGIN * 4 + CUBE_SIZE * 3;
        let mut prims: Vec<Primitive> = Vec::new();
        emit_face_block(&mut prims, &self.left, 0, w);
        emit_face_block(&mut prims, &self.front, w, w);
        emit_face_block(&mut prims, &self.right, 2 * w, w);
        emit_face_block(&mut prims, &self.back, 3 * w, w);
        emit_face_block(&mut prims, &self.up, w, 0);
        emit_face_block(&mut prims, &self.down, w, 2 * w);
        proof {
            assert(prims@ =~= cube_prims(*self));
        }
        Drawing {
            prims,
            viewbox: ViewBox { left: -MARGIN, top: -MARGIN, width: w * 4, height: w * 3 },
        }
    }
}

impl CubeViz {
    /// Renders the model to its vector document: the primitive list in paint
    /// order and the computed viewbox.
    pub fn tosvg(&self) -> (r: Drawing)
        ensures
            r.prims@ == cv_prims(*self),
            r.viewbox == cv_box(*self),
    {
        match self {
            CubeViz::Face(f) => f.tosvg(),
            CubeViz::Cube(c) => c.tosvg(),
        }
    }
}

/// Character-by-character string comparison, so that equality of arbitrary
/// keys needs nothing beyond the character views.
fn str_eq(a: &str, b: &str) -> (r: bool)
    ensures
        r == (a@ == b@),
{
    let la = a.unicode_len();
    let lb = b.unicode_len();
    if la != lb {
        assert(a@ != b@);
        return false;
    }
    let mut i: usize = 0;
    while i < la
        invariant
            la == a@.len(),
            la == b@.len(),
            i <= la,
            forall|k: int| 0 <= k < i ==> a@[k] == b@[k],
        decreases la - i,
    {
        if a.get_char(i) != b.get_char(i) {
            return false;
        }
        i = i + 1;
    }
    proof {
        assert(a@ =~= b@);
    }
    true
}

} // verus!
