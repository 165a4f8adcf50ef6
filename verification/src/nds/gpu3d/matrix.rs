//! The 3D engine's four matrix stacks.
//!
//! Every element is 20.12 signed fixed point. Products are summed exactly, shifted down by
//! twelve and cut to 32 bits.
//!
//! - **Projection**, one level deep. Push and pop toggle between two matrices.
//! - **Position** and **direction**, pushed and popped *together* by one pointer.
//! - **Texture**, one level.
//!
//! Which stack a command acts on is set by `MTX_MODE`. Mode 2 acts on the position *and* the
//! direction matrix; the other three on exactly one.
//!
//! Pushing past the top or popping past the bottom records an error and carries on.

use vstd::prelude::*;
use crate::arith;
use crate::arith::fixed;
use crate::arrays::filled;
use crate::state::{StateError, StateReader, StateWriter};
use crate::state;

verus! {

/// Fractional bits in the fixed-point format the geometry engine works in.
pub const FRACTION_BITS: u32 = 12;

pub const ONE: i32 = 0x1000;

/// A 4x4 matrix in column-major order, which is the order the load commands supply.
#[derive(Debug, Clone, Copy, PartialEq, Eq)]
pub struct Matrix(pub [i32; 16]);

/// The element at `(row, column)` of a column-major matrix.
pub open spec fn element(m: Seq<i32>, row: int, column: int) -> i32 {
    m[column * 4 + row]
}

/// The identity matrix.
pub open spec fn identity() -> Seq<i32> {
    Seq::new(16, |i: int| if i % 5 == 0 { ONE } else { 0i32 })
}

/// Row `row` of `a` times column `column` of `b`, before the fraction bits go.
pub open spec fn dot_product(a: Seq<i32>, b: Seq<i32>, row: int, column: int) -> int {
    element(a, row, 0) * element(b, 0, column) + element(a, row, 1) * element(b, 1, column)
        + element(a, row, 2) * element(b, 2, column) + element(a, row, 3) * element(b, 3, column)
}

/// The matrix product `a * b`.
pub open spec fn product(a: Seq<i32>, b: Seq<i32>) -> Seq<i32> {
    Seq::new(16, |i: int| fixed(dot_product(a, b, i % 4, i / 4)))
}

/// One component of `m` times the column vector `(x, y, z, w)`.
pub open spec fn image(m: Seq<i32>, x: i32, y: i32, z: i32, w: i32, row: int) -> i32 {
    fixed(
        element(m, row, 0) * x + element(m, row, 1) * y + element(m, row, 2) * z + element(
            m,
            row,
            3,
        ) * w,
    )
}

/// The four components of `m` times the column vector `(x, y, z, w)`.
pub open spec fn transformed(m: Seq<i32>, x: i32, y: i32, z: i32, w: i32) -> [i32; 4] {
    [
        image(m, x, y, z, w, 0),
        image(m, x, y, z, w, 1),
        image(m, x, y, z, w, 2),
        image(m, x, y, z, w, 3),
    ]
}

/// The matrix that moves a point by `(x, y, z)`.
pub open spec fn translation(x: i32, y: i32, z: i32) -> Seq<i32> {
    identity().update(12, x).update(13, y).update(14, z)
}

/// The matrix that scales a point by `(x, y, z)`.
pub open spec fn scaling(x: i32, y: i32, z: i32) -> Seq<i32> {
    identity().update(0, x).update(5, y).update(10, z)
}

/// The parameter at `i`, or zero where the list is shorter.
pub open spec fn or_zero(values: Seq<i32>, i: int) -> i32 {
    if 0 <= i < values.len() { values[i] } else { 0 }
}

/// Four columns of three over the identity.
pub open spec fn filled_4x3(values: Seq<i32>) -> Seq<i32> {
    Seq::new(
        16,
        |i: int|
            if i % 4 < 3 {
                or_zero(values, i / 4 * 3 + i % 4)
            } else {
                identity()[i]
            },
    )
}

/// Three columns of three over the identity.
pub open spec fn filled_3x3(values: Seq<i32>) -> Seq<i32> {
    Seq::new(
        16,
        |i: int|
            if i % 4 < 3 && i / 4 < 3 {
                or_zero(values, i / 4 * 3 + i % 4)
            } else {
                identity()[i]
            },
    )
}

/// Sixteen values in order, zero where the list is shorter.
pub open spec fn filled_4x4(values: Seq<i32>) -> Seq<i32> {
    Seq::new(16, |i: int| or_zero(values, i))
}

impl View for Matrix {
    type V = Seq<i32>;

    open spec fn view(&self) -> Seq<i32> {
        self.0@
    }
}

impl Default for Matrix {
    fn default() -> (r: Self)
        ensures
            r@ == identity(),
    {
        Matrix::identity()
    }
}

impl Matrix {
    pub fn identity() -> (r: Self)
        ensures
            r@ == identity(),
    {
        let mut m = [0i32; 16];
        m[0] = ONE;
        m[5] = ONE;
        m[10] = ONE;
        m[15] = ONE;
        Matrix(m)
    }

    /// Element at `(row, column)`.
    pub fn at(&self, row: usize, column: usize) -> (r: i32)
        requires
            row < 4,
            column < 4,
        ensures
            r == element(self@, row as int, column as int),
    {
        self.0[column * 4 + row]
    }

    /// The plain matrix product `self * other`.
    pub fn multiply(&self, other: &Matrix) -> (r: Matrix)
        ensures
            r@ == product(self@, other@),
    {
        let mut out = [0i32; 16];
        for i in 0..16usize
            invariant
                forall|j: int| 0 <= j < i ==> #[trigger] out@[j] == product(self@, other@)[j],
        {
            let row = i % 4;
            let column = i / 4;
            let sum: i128 = arith::word_product(self.at(row, 0), other.at(0, column))
                + arith::word_product(self.at(row, 1), other.at(1, column)) + arith::word_product(
                self.at(row, 2),
                other.at(2, column),
            ) + arith::word_product(self.at(row, 3), other.at(3, column));
            out[i] = (sum >> 12u32) as i32;
        }
        Matrix(out)
    }

    /// Transform a point, returning the four clip-space components.
    pub fn transform(&self, x: i32, y: i32, z: i32, w: i32) -> (r: [i32; 4])
        ensures
            r == transformed(self@, x, y, z, w),
    {
        let mut out = [0i32; 4];
        for row in 0..4usize
            invariant
                forall|j: int| 0 <= j < row ==> #[trigger] out@[j] == image(self@, x, y, z, w, j),
        {
            let sum: i128 = arith::word_product(self.at(row, 0), x) + arith::word_product(
                self.at(row, 1),
                y,
            ) + arith::word_product(self.at(row, 2), z) + arith::word_product(self.at(row, 3), w);
            out[row] = (sum >> 12u32) as i32;
        }
        assert(out =~= transformed(self@, x, y, z, w));
        out
    }

    /// Multiply in a translation, which is what `MTX_TRANS` does.
    pub fn translated(&self, x: i32, y: i32, z: i32) -> (r: Matrix)
        ensures
            r@ == product(self@, translation(x, y, z)),
    {
        self.multiply(&Matrix::translation(x, y, z))
    }

    /// The matrix that moves a point by `(x, y, z)`.
    fn translation(x: i32, y: i32, z: i32) -> (r: Matrix)
        ensures
            r@ == translation(x, y, z),
    {
        let mut m = Matrix::identity();
        m.0[12] = x;
        m.0[13] = y;
        m.0[14] = z;
        m
    }

    /// Multiply in a scale, which is what `MTX_SCALE` does.
    pub fn scaled(&self, x: i32, y: i32, z: i32) -> (r: Matrix)
        ensures
            r@ == product(self@, scaling(x, y, z)),
    {
        let mut m = Matrix::identity();
        m.0[0] = x;
        m.0[5] = y;
        m.0[10] = z;
        assert(m@ =~= scaling(x, y, z));
        self.multiply(&m)
    }

    /// Build a matrix from a 4x3 parameter list: three columns of three, then the translation.
    pub fn from_4x3(values: &[i32]) -> (r: Matrix)
        ensures
            r@ == filled_4x3(values@),
    {
        let mut m = Matrix::identity().0;
        for i in 0..16usize
            invariant
                forall|j: int| 0 <= j < i ==> #[trigger] m@[j] == filled_4x3(values@)[j],
                forall|j: int| i <= j < 16 ==> #[trigger] m@[j] == identity()[j],
        {
            let row = i % 4;
            if row < 3 {
                m[i] = value_or_zero(values, i / 4 * 3 + row);
            }
        }
        Matrix(m)
    }

    /// Build a matrix from a 3x3 parameter list, leaving the translation at zero.
    pub fn from_3x3(values: &[i32]) -> (r: Matrix)
        ensures
            r@ == filled_3x3(values@),
    {
        let mut m = Matrix::identity().0;
        for i in 0..16usize
            invariant
                forall|j: int| 0 <= j < i ==> #[trigger] m@[j] == filled_3x3(values@)[j],
                forall|j: int| i <= j < 16 ==> #[trigger] m@[j] == identity()[j],
        {
            let row = i % 4;
            if row < 3 && i / 4 < 3 {
                m[i] = value_or_zero(values, i / 4 * 3 + row);
            }
        }
        Matrix(m)
    }

    /// Build a matrix from sixteen values in order.
    pub fn from_4x4(values: &[i32]) -> (r: Matrix)
        ensures
            r@ == filled_4x4(values@),
    {
        let mut m = [0i32; 16];
        for i in 0..16usize
            invariant
                forall|j: int| 0 <= j < i ==> #[trigger] m@[j] == or_zero(values@, j),
        {
            m[i] = value_or_zero(values, i);
        }
        Matrix(m)
    }

    /// Write the sixteen elements in order.
    fn save(&self, w: &mut StateWriter)
        ensures
            state::continues(old(w)@, final(w)@),
            final(w)@.len() == old(w)@.len() + 64,
            matrix_at(final(w)@, old(w)@.len() as int) == self@,
    {
        let ghost start = w@;
        for i in 0..16usize
            invariant
                state::continues(start, w@),
                w@.len() == start.len() + 4 * i,
                forall|j: int|
                    0 <= j < i ==> state::le32(w@, start.len() + 4 * j) as i32
                        == #[trigger] self.0@[j],
        {
            w.write_i32(self.0[i]);
        }
        assert(matrix_at(w@, start.len() as int) =~= self.0@);
    }

    /// Read a whole matrix, or keep `current` where the stream falls short of one.
    fn load_or(current: Matrix, r: &mut StateReader) -> (m: Matrix)
        ensures
            state::advanced(*old(r), *final(r), 64),
            m@ == matrix_or(old(r).data(), old(r).limit(), old(r).pos() as int, current@),
    {
        let ghost start = *r;
        let mut m = [0i32; 16];
        for i in 0..16usize
            invariant
                state::advanced(start, *r, 4 * i),
                forall|j: int|
                    0 <= j < i && start.pos() + 64 <= start.limit() ==> #[trigger] m@[j]
                        == state::le32(start.data(), start.pos() + 4 * j) as i32,
        {
            let value = r.i32_or(0);
            m[i] = value;
        }
        if r.failed() {
            current
        } else {
            assert(m@ =~= matrix_at(start.data(), start.pos() as int));
            Matrix(m)
        }
    }
}

/// The parameter at `i`, or zero where the list is shorter.
fn value_or_zero(values: &[i32], i: usize) -> (r: i32)
    ensures
        r == or_zero(values@, i as int),
{
    if i < values.len() {
        values[i]
    } else {
        0
    }
}

/// Of four terms, the one whose factor is one in 20.12 is all that is left.
proof fn lemma_single_term(a: Seq<int>, b: Seq<int>, k: int)
    by (nonlinear_arith)
    requires
        0 <= k < 4,
        b[0] == if k == 0 { 0x1000int } else { 0 },
        b[1] == if k == 1 { 0x1000int } else { 0 },
        b[2] == if k == 2 { 0x1000int } else { 0 },
        b[3] == if k == 3 { 0x1000int } else { 0 },
    ensures
        a[0] * b[0] + a[1] * b[1] + a[2] * b[2] + a[3] * b[3] == a[k] * 0x1000,
        b[0] * a[0] + b[1] * a[1] + b[2] * a[2] + b[3] * a[3] == a[k] * 0x1000,
{
}

/// The identity is neutral on either side of a product.
pub proof fn law_identity_is_neutral(m: Seq<i32>)
    requires
        m.len() == 16,
    ensures
        product(m, identity()) == m,
        product(identity(), m) == m,
{
    let id = identity();
    assert forall|i: int| 0 <= i < 16 implies #[trigger] product(m, id)[i] == m[i] by {
        let (row, column) = (i % 4, i / 4);
        lemma_single_term(
            Seq::new(4, |k: int| element(m, row, k) as int),
            Seq::new(4, |k: int| element(id, k, column) as int),
            column,
        );
        arith::lemma_fixed_one(m[i]);
    }
    assert forall|i: int| 0 <= i < 16 implies #[trigger] product(id, m)[i] == m[i] by {
        let (row, column) = (i % 4, i / 4);
        lemma_single_term(
            Seq::new(4, |k: int| element(m, k, column) as int),
            Seq::new(4, |k: int| element(id, row, k) as int),
            row,
        );
        arith::lemma_fixed_one(m[i]);
    }
    assert(product(m, id) =~= m);
    assert(product(id, m) =~= m);
}

/// Which matrix `MTX_*` commands act on, as set by `MTX_MODE`.
#[derive(Debug, Clone, Copy, PartialEq, Eq, Structural)]
pub enum MatrixMode {
    Projection,
    /// The position matrix alone.
    Position,
    /// The position *and* direction matrices together.
    PositionAndDirection,
    Texture,
}

/// The mode that the low two bits select.
pub open spec fn mode_of(bits: u32) -> MatrixMode {
    match bits & 3 {
        0 => MatrixMode::Projection,
        1 => MatrixMode::Position,
        2 => MatrixMode::PositionAndDirection,
        _ => MatrixMode::Texture,
    }
}

/// The number a mode is saved as.
pub open spec fn mode_number(mode: MatrixMode) -> u8 {
    match mode {
        MatrixMode::Projection => 0,
        MatrixMode::Position => 1,
        MatrixMode::PositionAndDirection => 2,
        MatrixMode::Texture => 3,
    }
}

impl MatrixMode {
    pub fn from_bits(bits: u32) -> (r: Self)
        ensures
            r == mode_of(bits),
    {
        match bits & 3 {
            0 => MatrixMode::Projection,
            1 => MatrixMode::Position,
            2 => MatrixMode::PositionAndDirection,
            _ => MatrixMode::Texture,
        }
    }

    fn number(self) -> (r: u8)
        ensures
            r == mode_number(self),
    {
        match self {
            MatrixMode::Projection => 0,
            MatrixMode::Position => 1,
            MatrixMode::PositionAndDirection => 2,
            MatrixMode::Texture => 3,
        }
    }
}

/// What the four stacks hold.
#[verifier::ext_equal]
pub struct MatrixState {
    pub mode: MatrixMode,
    pub projection: Seq<i32>,
    pub position: Seq<i32>,
    pub direction: Seq<i32>,
    pub texture: Seq<i32>,
    pub projection_saved: Seq<i32>,
    pub texture_saved: Seq<i32>,
    pub position_stack: Seq<Seq<i32>>,
    pub direction_stack: Seq<Seq<i32>>,
    /// The shared stack pointer of the position and direction stacks.
    pub pointer: int,
    /// Whether the projection stack's single level is occupied.
    pub projection_pushed: bool,
    pub overflow: bool,
}

/// How many bytes of a state the stacks take.
pub open spec fn saved_size() -> int {
    4484
}

/// The sixteen elements that a stream holds at `at`.
pub open spec fn matrix_at(d: Seq<u8>, at: int) -> Seq<i32> {
    Seq::new(16, |i: int| state::le32(d, at + 4 * i) as i32)
}

/// The matrix at `at`, or `current` where the stream falls short of one.
pub open spec fn matrix_or(d: Seq<u8>, limit: int, at: int, current: Seq<i32>) -> Seq<i32> {
    if at + 64 <= limit {
        matrix_at(d, at)
    } else {
        current
    }
}

impl MatrixState {
    /// Everything at the identity, and every stack empty.
    pub open spec fn initial() -> MatrixState {
        MatrixState {
            mode: MatrixMode::Projection,
            projection: identity(),
            position: identity(),
            direction: identity(),
            texture: identity(),
            projection_saved: identity(),
            texture_saved: identity(),
            position_stack: Seq::new(32, |i: int| identity()),
            direction_stack: Seq::new(32, |i: int| identity()),
            pointer: 0,
            projection_pushed: false,
            overflow: false,
        }
    }

    /// Projection times position: what a vertex is multiplied by.
    pub open spec fn clip(self) -> Seq<i32> {
        product(self.projection, self.position)
    }

    /// `MTX_MODE`.
    pub open spec fn moded(self, bits: u32) -> MatrixState {
        MatrixState { mode: mode_of(bits), ..self }
    }

    /// `MTX_PUSH`.
    pub open spec fn pushed(self) -> MatrixState {
        match self.mode {
            MatrixMode::Projection => MatrixState {
                projection_saved: self.projection,
                projection_pushed: true,
                overflow: self.overflow || self.projection_pushed,
                ..self
            },
            MatrixMode::Texture => MatrixState { texture_saved: self.texture, ..self },
            _ => MatrixState {
                position_stack: self.position_stack.update(self.pointer, self.position),
                direction_stack: self.direction_stack.update(self.pointer, self.direction),
                pointer: arith::smaller(self.pointer + 1, 31),
                overflow: self.overflow || self.pointer >= 31,
                ..self
            },
        }
    }

    /// `MTX_POP` by `offset` levels.
    pub open spec fn popped(self, offset: int) -> MatrixState {
        match self.mode {
            MatrixMode::Projection => MatrixState {
                projection: self.projection_saved,
                projection_pushed: false,
                overflow: self.overflow || !self.projection_pushed,
                ..self
            },
            MatrixMode::Texture => MatrixState { texture: self.texture_saved, ..self },
            _ => {
                let target = self.pointer - offset;
                let pointer = arith::clamped(target, 0, 31);
                MatrixState {
                    position: self.position_stack[pointer],
                    direction: self.direction_stack[pointer],
                    pointer,
                    overflow: self.overflow || target != pointer,
                    ..self
                }
            },
        }
    }

    /// `MTX_STORE`.
    pub open spec fn stored(self, slot: u32) -> MatrixState {
        match self.mode {
            MatrixMode::Projection => MatrixState {
                projection_saved: self.projection,
                projection_pushed: true,
                ..self
            },
            MatrixMode::Texture => MatrixState { texture_saved: self.texture, ..self },
            _ => MatrixState {
                position_stack: self.position_stack.update((slot & 31) as int, self.position),
                direction_stack: self.direction_stack.update((slot & 31) as int, self.direction),
                ..self
            },
        }
    }

    /// `MTX_RESTORE`.
    pub open spec fn recalled(self, slot: u32) -> MatrixState {
        match self.mode {
            MatrixMode::Projection => MatrixState { projection: self.projection_saved, ..self },
            MatrixMode::Texture => MatrixState { texture: self.texture_saved, ..self },
            _ => MatrixState {
                position: self.position_stack[(slot & 31) as int],
                direction: self.direction_stack[(slot & 31) as int],
                ..self
            },
        }
    }

    /// `MTX_LOAD_*` and `MTX_IDENTITY`.
    pub open spec fn loaded(self, m: Seq<i32>) -> MatrixState {
        match self.mode {
            MatrixMode::Projection => MatrixState { projection: m, ..self },
            MatrixMode::Texture => MatrixState { texture: m, ..self },
            MatrixMode::Position => MatrixState { position: m, ..self },
            MatrixMode::PositionAndDirection => MatrixState { position: m, direction: m, ..self },
        }
    }

    /// `MTX_MULT_*` and `MTX_TRANS`.
    pub open spec fn multiplied(self, m: Seq<i32>) -> MatrixState {
        match self.mode {
            MatrixMode::Projection => MatrixState {
                projection: product(self.projection, m),
                ..self
            },
            MatrixMode::Texture => MatrixState { texture: product(self.texture, m), ..self },
            MatrixMode::Position => MatrixState { position: product(self.position, m), ..self },
            MatrixMode::PositionAndDirection => MatrixState {
                position: product(self.position, m),
                direction: product(self.direction, m),
                ..self
            },
        }
    }

    /// `MTX_SCALE`.
    pub open spec fn scaled(self, x: i32, y: i32, z: i32) -> MatrixState {
        let m = scaling(x, y, z);
        match self.mode {
            MatrixMode::Projection => MatrixState {
                projection: product(self.projection, m),
                ..self
            },
            MatrixMode::Texture => MatrixState { texture: product(self.texture, m), ..self },
            _ => MatrixState { position: product(self.position, m), ..self },
        }
    }

    /// The stacks after reading the stream at `at`, as far as `limit` lets it be read.
    #[verifier::opaque]
    pub open spec fn restored(self, d: Seq<u8>, limit: int, at: int) -> MatrixState {
        MatrixState {
            mode: if at + 1 <= limit { mode_of(d[at] as u32) } else { self.mode },
            projection: matrix_or(d, limit, at + 1, self.projection),
            position: matrix_or(d, limit, at + 65, self.position),
            direction: matrix_or(d, limit, at + 129, self.direction),
            texture: matrix_or(d, limit, at + 193, self.texture),
            projection_saved: matrix_or(d, limit, at + 257, self.projection_saved),
            texture_saved: matrix_or(d, limit, at + 321, self.texture_saved),
            position_stack: Seq::new(
                32,
                |i: int| matrix_or(d, limit, at + 385 + 64 * i, self.position_stack[i]),
            ),
            direction_stack: Seq::new(
                32,
                |i: int| matrix_or(d, limit, at + 2433 + 64 * i, self.direction_stack[i]),
            ),
            pointer: if at + 4482 <= limit {
                arith::smaller(d[at + 4481] as int, 31)
            } else {
                self.pointer
            },
            projection_pushed: state::or_bool(d, limit, at + 4482, self.projection_pushed),
            overflow: state::or_bool(d, limit, at + 4483, self.overflow),
        }
    }

    /// The stream holds these stacks at `at`.
    pub open spec fn encoded_at(self, d: Seq<u8>, at: int) -> bool {
        &&& at + saved_size() <= d.len()
        &&& self.restored(d, d.len() as int, at) == self
    }
}

impl MatrixState {
    /// Appending to a stream leaves the stacks in it alone.
    pub proof fn lemma_kept(self, shorter: Seq<u8>, longer: Seq<u8>, at: int)
        requires
            state::continues(shorter, longer),
            0 <= at,
            self.encoded_at(shorter, at),
        ensures
            self.encoded_at(longer, at),
    {
        reveal(MatrixState::restored);
        let a = self.restored(longer, longer.len() as int, at);
        let b = self.restored(shorter, shorter.len() as int, at);
        lemma_matrix_kept(shorter, longer, at + 1);
        lemma_matrix_kept(shorter, longer, at + 65);
        lemma_matrix_kept(shorter, longer, at + 129);
        lemma_matrix_kept(shorter, longer, at + 193);
        lemma_matrix_kept(shorter, longer, at + 257);
        lemma_matrix_kept(shorter, longer, at + 321);
        assert forall|i: int| 0 <= i < 32 implies a.position_stack[i] == b.position_stack[i]
            && #[trigger] a.direction_stack[i] == b.direction_stack[i] by {
            lemma_matrix_kept(shorter, longer, at + 385 + 64 * i);
            lemma_matrix_kept(shorter, longer, at + 2433 + 64 * i);
        }
        assert(a.position_stack =~= b.position_stack) by {
            assert forall|i: int| 0 <= i < 32 implies #[trigger] a.position_stack[i]
                == b.position_stack[i] by {
                lemma_matrix_kept(shorter, longer, at + 385 + 64 * i);
            }
        }
        assert(a.direction_stack =~= b.direction_stack);
    }
}

/// All four matrices and their stacks.
#[derive(Debug, Clone, PartialEq, Eq)]
pub struct MatrixStack {
    pub mode: MatrixMode,
    pub projection: Matrix,
    pub position: Matrix,
    pub direction: Matrix,
    pub texture: Matrix,
    pub projection_saved: Matrix,
    pub texture_saved: Matrix,
    pub position_stack: [Matrix; 32],
    pub direction_stack: [Matrix; 32],
    /// The shared stack pointer for the position and direction stacks.
    pub pointer: u8,
    /// Whether the projection stack's single level is occupied.
    pub projection_pushed: bool,
    /// Set by a push past the top or a pop past the bottom, and reported through `GXSTAT`.
    pub overflow: bool,
    /// The clip matrix, cached because every vertex needs it and it changes far less often than
    /// vertices arrive.
    pub clip: Matrix,
    pub clip_valid: bool,
}

impl View for MatrixStack {
    type V = MatrixState;

    open spec fn view(&self) -> MatrixState {
        MatrixState {
            mode: self.mode,
            projection: self.projection@,
            position: self.position@,
            direction: self.direction@,
            texture: self.texture@,
            projection_saved: self.projection_saved@,
            texture_saved: self.texture_saved@,
            position_stack: Seq::new(32, |i: int| self.position_stack@[i]@),
            direction_stack: Seq::new(32, |i: int| self.direction_stack@[i]@),
            pointer: self.pointer as int,
            projection_pushed: self.projection_pushed,
            overflow: self.overflow,
        }
    }
}

impl Default for MatrixStack {
    fn default() -> (r: Self)
        ensures
            r@ == MatrixState::initial(),
            r.wf(),
    {
        MatrixStack::new()
    }
}

impl MatrixStack {
    /// The pointer stays inside the stack, and a valid clip matrix is the right one.
    pub open spec fn wf(&self) -> bool {
        &&& self.pointer <= 31
        &&& self.clip_valid ==> self.clip@ == product(self.projection@, self.position@)
    }

    pub fn new() -> (r: Self)
        ensures
            r@ == MatrixState::initial(),
            r.wf(),
    {
        let r = MatrixStack {
            mode: MatrixMode::Projection,
            projection: Matrix::identity(),
            position: Matrix::identity(),
            direction: Matrix::identity(),
            texture: Matrix::identity(),
            projection_saved: Matrix::identity(),
            texture_saved: Matrix::identity(),
            position_stack: filled(Matrix::identity()),
            direction_stack: filled(Matrix::identity()),
            pointer: 0,
            projection_pushed: false,
            overflow: false,
            clip: Matrix::identity(),
            clip_valid: true,
        };
        proof {
            lemma_identity_squared();
        }
        assert(r@.position_stack =~= MatrixState::initial().position_stack);
        assert(r@.direction_stack =~= MatrixState::initial().direction_stack);
        r
    }

    pub fn set_mode(&mut self, bits: u32)
        requires
            old(self).wf(),
        ensures
            final(self).wf(),
            final(self)@ == old(self)@.moded(bits),
    {
        self.mode = MatrixMode::from_bits(bits);
    }

    pub fn stack_pointer(&self) -> (r: u8)
        requires
            self.wf(),
        ensures
            r == self@.pointer,
            r <= 31,
    {
        self.pointer
    }

    /// Projection times position: what a vertex is actually multiplied by.
    pub fn clip_matrix(&mut self) -> (r: Matrix)
        requires
            old(self).wf(),
        ensures
            final(self).wf(),
            final(self)@ == old(self)@,
            r@ == old(self)@.clip(),
    {
        if !self.clip_valid {
            self.clip = self.projection.multiply(&self.position);
            self.clip_valid = true;
        }
        self.clip
    }

    fn invalidate(&mut self)
        requires
            old(self).pointer <= 31,
        ensures
            final(self).wf(),
            final(self)@ == old(self)@,
    {
        self.clip_valid = false;
    }

    /// `MTX_PUSH`.
    pub fn push(&mut self)
        requires
            old(self).wf(),
        ensures
            final(self).wf(),
            final(self)@ == old(self)@.pushed(),
    {
        match self.mode {
            MatrixMode::Projection => {
                if self.projection_pushed {
                    self.overflow = true;
                }
                self.projection_saved = self.projection;
                self.projection_pushed = true;
            },
            MatrixMode::Texture => {
                self.texture_saved = self.texture;
            },
            _ => {
                // An overflow is flagged at 31, and the matrices are stored all the same.
                if self.pointer >= 31 {
                    self.overflow = true;
                }
                let slot = self.pointer as usize;
                self.position_stack[slot] = self.position;
                self.direction_stack[slot] = self.direction;
                if self.pointer < 31 {
                    self.pointer = self.pointer + 1;
                }
            },
        }
        assert(self@ =~~= old(self)@.pushed());
    }

    /// `MTX_POP`, whose parameter is a *signed six-bit* offset.
    pub fn pop(&mut self, offset: i32)
        requires
            old(self).wf(),
        ensures
            final(self).wf(),
            final(self)@ == old(self)@.popped(offset as int),
    {
        match self.mode {
            MatrixMode::Projection => {
                if !self.projection_pushed {
                    self.overflow = true;
                }
                self.projection = self.projection_saved;
                self.projection_pushed = false;
                self.invalidate();
            },
            MatrixMode::Texture => {
                self.texture = self.texture_saved;
            },
            _ => {
                let target: i64 = self.pointer as i64 - offset as i64;
                if target < 0 || target > 31 {
                    self.overflow = true;
                }
                self.pointer = arith::clamp(target, 0, 31) as u8;
                let slot = self.pointer as usize;
                self.position = self.position_stack[slot];
                self.direction = self.direction_stack[slot];
                self.invalidate();
            },
        }
        assert(self@ =~~= old(self)@.popped(offset as int));
    }

    /// `MTX_STORE`, which writes to an absolute slot rather than the stack pointer.
    pub fn store(&mut self, slot: u32)
        requires
            old(self).wf(),
        ensures
            final(self).wf(),
            final(self)@ == old(self)@.stored(slot),
    {
        broadcast use crate::bits::lemma_and_bound_u32;

        match self.mode {
            MatrixMode::Projection => {
                self.projection_saved = self.projection;
                self.projection_pushed = true;
            },
            MatrixMode::Texture => {
                self.texture_saved = self.texture;
            },
            _ => {
                let index = (slot & 31) as usize;
                self.position_stack[index] = self.position;
                self.direction_stack[index] = self.direction;
            },
        }
        assert(self@ =~~= old(self)@.stored(slot));
    }

    /// `MTX_RESTORE`.
    pub fn restore(&mut self, slot: u32)
        requires
            old(self).wf(),
        ensures
            final(self).wf(),
            final(self)@ == old(self)@.recalled(slot),
    {
        broadcast use crate::bits::lemma_and_bound_u32;

        match self.mode {
            MatrixMode::Projection => {
                self.projection = self.projection_saved;
                self.invalidate();
            },
            MatrixMode::Texture => {
                self.texture = self.texture_saved;
            },
            _ => {
                let index = (slot & 31) as usize;
                self.position = self.position_stack[index];
                self.direction = self.direction_stack[index];
                self.invalidate();
            },
        }
        assert(self@ =~~= old(self)@.recalled(slot));
    }

    /// `MTX_IDENTITY`.
    pub fn load_identity(&mut self)
        requires
            old(self).wf(),
        ensures
            final(self).wf(),
            final(self)@ == old(self)@.loaded(identity()),
    {
        self.load_matrix(Matrix::identity());
    }

    /// `MTX_LOAD_4x4` and `MTX_LOAD_4x3`.
    pub fn load_matrix(&mut self, matrix: Matrix)
        requires
            old(self).wf(),
        ensures
            final(self).wf(),
            final(self)@ == old(self)@.loaded(matrix@),
    {
        match self.mode {
            MatrixMode::Projection => {
                self.projection = matrix;
            },
            MatrixMode::Texture => {
                self.texture = matrix;
            },
            MatrixMode::Position => {
                self.position = matrix;
            },
            MatrixMode::PositionAndDirection => {
                self.position = matrix;
                self.direction = matrix;
            },
        }
        self.invalidate();
        assert(self@ =~~= old(self)@.loaded(matrix@));
    }

    /// `MTX_MULT_*`.
    pub fn multiply(&mut self, matrix: Matrix)
        requires
            old(self).wf(),
        ensures
            final(self).wf(),
            final(self)@ == old(self)@.multiplied(matrix@),
    {
        match self.mode {
            MatrixMode::Projection => {
                self.projection = self.projection.multiply(&matrix);
            },
            MatrixMode::Texture => {
                self.texture = self.texture.multiply(&matrix);
            },
            MatrixMode::Position => {
                self.position = self.position.multiply(&matrix);
            },
            MatrixMode::PositionAndDirection => {
                self.position = self.position.multiply(&matrix);
                self.direction = self.direction.multiply(&matrix);
            },
        }
        self.invalidate();
        assert(self@ =~~= old(self)@.multiplied(matrix@));
    }

    /// `MTX_TRANS`.
    pub fn translate(&mut self, x: i32, y: i32, z: i32)
        requires
            old(self).wf(),
        ensures
            final(self).wf(),
            final(self)@ == old(self)@.multiplied(translation(x, y, z)),
    {
        self.multiply(Matrix::translation(x, y, z));
    }

    /// `MTX_SCALE`, which does *not* touch the direction matrix even in mode 2.
    pub fn scale(&mut self, x: i32, y: i32, z: i32)
        requires
            old(self).wf(),
        ensures
            final(self).wf(),
            final(self)@ == old(self)@.scaled(x, y, z),
    {
        match self.mode {
            MatrixMode::Projection => {
                self.projection = self.projection.scaled(x, y, z);
            },
            MatrixMode::Texture => {
                self.texture = self.texture.scaled(x, y, z);
            },
            _ => {
                self.position = self.position.scaled(x, y, z);
            },
        }
        self.invalidate();
        assert(self@ =~~= old(self)@.scaled(x, y, z));
    }

    pub fn save(&self, w: &mut StateWriter)
        requires
            self.wf(),
        ensures
            state::continues(old(w)@, final(w)@),
            final(w)@.len() == old(w)@.len() + saved_size(),
            self@.encoded_at(final(w)@, old(w)@.len() as int),
    {
        let ghost at = w@.len() as int;
        w.write_u8(self.mode.number());
        self.projection.save(w);
        let ghost w1 = w@;
        self.position.save(w);
        let ghost w2 = w@;
        self.direction.save(w);
        let ghost w3 = w@;
        self.texture.save(w);
        let ghost w4 = w@;
        self.projection_saved.save(w);
        let ghost w5 = w@;
        self.texture_saved.save(w);
        let ghost w6 = w@;
        save_all(&self.position_stack, w);
        let ghost w7 = w@;
        save_all(&self.direction_stack, w);
        let ghost w8 = w@;
        w.write_u8(self.pointer);
        w.write_bool(self.projection_pushed);
        w.write_bool(self.overflow);
        proof {
            lemma_matrix_kept(w1, w@, at + 1);
            lemma_matrix_kept(w2, w@, at + 65);
            lemma_matrix_kept(w3, w@, at + 129);
            lemma_matrix_kept(w4, w@, at + 193);
            lemma_matrix_kept(w5, w@, at + 257);
            lemma_matrix_kept(w6, w@, at + 321);
            assert forall|i: int| 0 <= i < 32 implies matrix_at(w@, at + 385 + 64 * i)
                == #[trigger] self.position_stack@[i]@ by {
                lemma_matrix_kept(w7, w@, at + 385 + 64 * i);
            }
            assert forall|i: int| 0 <= i < 32 implies matrix_at(w@, at + 2433 + 64 * i)
                == #[trigger] self.direction_stack@[i]@ by {
                lemma_matrix_kept(w8, w@, at + 2433 + 64 * i);
            }
            lemma_mode_number(self.mode);
            reveal(MatrixState::restored);
            assert(self@.restored(w@, w@.len() as int, at) =~= self@);
        }
    }

    pub fn load(&mut self, r: &mut StateReader) -> (result: Result<(), StateError>)
        requires
            old(self).wf(),
        ensures
            final(self).wf(),
            final(self)@ == old(self)@.restored(
                old(r).data(),
                old(r).limit(),
                old(r).pos() as int,
            ),
            state::advanced(*old(r), *final(r), saved_size()),
            result == state::verdict(*final(r)),
    {
        reveal(MatrixState::restored);
        let ghost start = *r;
        self.clip_valid = false;
        let number = r.u8_or(self.mode.number());
        proof {
            lemma_mode_number(self.mode);
        }
        self.mode = MatrixMode::from_bits(number as u32);
        self.projection = Matrix::load_or(self.projection, r);
        self.position = Matrix::load_or(self.position, r);
        self.direction = Matrix::load_or(self.direction, r);
        self.texture = Matrix::load_or(self.texture, r);
        self.projection_saved = Matrix::load_or(self.projection_saved, r);
        self.texture_saved = Matrix::load_or(self.texture_saved, r);
        load_all(&mut self.position_stack, r);
        load_all(&mut self.direction_stack, r);
        let pointer = r.u8_or(self.pointer);
        self.pointer = if pointer < 31 { pointer } else { 31 };
        self.projection_pushed = r.bool_or(self.projection_pushed);
        self.overflow = r.bool_or(self.overflow);
        assert(self@ =~~= old(self)@.restored(start.data(), start.limit(), start.pos() as int));
        r.status()
    }

    pub fn reset(&mut self)
        ensures
            final(self).wf(),
            final(self)@ == MatrixState::initial(),
    {
        *self = MatrixStack::new();
    }
}

proof fn lemma_identity_squared()
    ensures
        product(identity(), identity()) == identity(),
{
    law_identity_is_neutral(identity());
}

/// Appending to a stream leaves the matrices in it alone.
proof fn lemma_matrix_kept(shorter: Seq<u8>, longer: Seq<u8>, at: int)
    requires
        state::continues(shorter, longer),
        0 <= at,
        at + 64 <= shorter.len(),
    ensures
        matrix_at(longer, at) == matrix_at(shorter, at),
{
    assert(matrix_at(longer, at) =~= matrix_at(shorter, at));
}

/// A mode is the one that its own number selects.
proof fn lemma_mode_number(mode: MatrixMode)
    ensures
        mode_of(mode_number(mode) as u32) == mode,
{
    vstd::arithmetic::power2::lemma2_to64();
    vstd::bits::lemma_low_bits_mask_values();
    crate::bits::lemma_field_u32(mode_number(mode) as u32, 0, 2);
}

/// Write the matrices of one stack in order.
fn save_all(stack: &[Matrix; 32], w: &mut StateWriter)
    ensures
        state::continues(old(w)@, final(w)@),
        final(w)@.len() == old(w)@.len() + 2048,
        forall|i: int|
            0 <= i < 32 ==> matrix_at(final(w)@, old(w)@.len() + 64 * i) == #[trigger] stack@[i]@,
{
    let ghost start = w@;
    for i in 0..32usize
        invariant
            state::continues(start, w@),
            w@.len() == start.len() + 64 * i,
            forall|j: int|
                0 <= j < i ==> matrix_at(w@, start.len() + 64 * j) == #[trigger] stack@[j]@,
    {
        let ghost before = w@;
        stack[i].save(w);
        assert forall|j: int| 0 <= j < i implies matrix_at(w@, start.len() + 64 * j)
            == #[trigger] stack@[j]@ by {
            lemma_matrix_kept(before, w@, start.len() + 64 * j);
        }
    }
}

/// Read the matrices of one stack in order.
fn load_all(stack: &mut [Matrix; 32], r: &mut StateReader)
    ensures
        state::advanced(*old(r), *final(r), 2048),
        forall|i: int|
            0 <= i < 32 ==> (#[trigger] final(stack)@[i])@ == matrix_or(
                old(r).data(),
                old(r).limit(),
                old(r).pos() + 64 * i,
                old(stack)@[i]@,
            ),
{
    let ghost start = *r;
    for i in 0..32usize
        invariant
            state::advanced(start, *r, 64 * i),
            forall|j: int|
                0 <= j < i ==> (#[trigger] stack@[j])@ == matrix_or(
                    start.data(),
                    start.limit(),
                    start.pos() + 64 * j,
                    old(stack)@[j]@,
                ),
            forall|j: int| i <= j < 32 ==> #[trigger] stack@[j] == old(stack)@[j],
    {
        let m = Matrix::load_or(stack[i], r);
        stack[i] = m;
    }
}

/// Loading what was saved gives back the saved stacks, whatever was there before.
pub proof fn law_save_then_load(saved: MatrixState, before: MatrixState, d: Seq<u8>, at: int)
    requires
        saved.encoded_at(d, at),
    ensures
        before.restored(d, d.len() as int, at) == saved,
{
    reveal(MatrixState::restored);
    assert(before.restored(d, d.len() as int, at) =~~= saved.restored(d, d.len() as int, at));
}

/// A pop of one undoes a push, as long as the push did not run past the top.
pub proof fn law_pop_undoes_push(s: MatrixState)
    requires
        0 <= s.pointer < 31,
        s.position_stack.len() == 32,
        s.direction_stack.len() == 32,
    ensures
        s.pushed().popped(1).projection == s.projection,
        s.pushed().popped(1).position == s.position,
        s.pushed().popped(1).direction == s.direction,
        s.pushed().popped(1).texture == s.texture,
        s.pushed().popped(1).pointer == s.pointer,
{
}

/// The matrix commands that only ever add to the stacks.
pub enum Step {
    Push,
    Load(Seq<i32>),
    /// `MTX_MULT_*` and `MTX_TRANS`.
    Multiply(Seq<i32>),
    Scale(i32, i32, i32),
    Restore(u32),
}

impl MatrixState {
    /// One command carried out.
    pub open spec fn stepped(self, step: Step) -> MatrixState {
        match step {
            Step::Push => self.pushed(),
            Step::Load(m) => self.loaded(m),
            Step::Multiply(m) => self.multiplied(m),
            Step::Scale(x, y, z) => self.scaled(x, y, z),
            Step::Restore(slot) => self.recalled(slot),
        }
    }

    /// Some commands carried out in order.
    pub open spec fn stepped_through(self, steps: Seq<Step>) -> MatrixState
        decreases steps.len(),
    {
        if steps.len() == 0 {
            self
        } else {
            self.stepped_through(steps.drop_last()).stepped(steps.last())
        }
    }

    /// Whether the commands act on the position stack.
    pub open spec fn positional(self) -> bool {
        self.mode == MatrixMode::Position || self.mode == MatrixMode::PositionAndDirection
    }
}

/// How many of some commands are pushes.
pub open spec fn pushes(steps: Seq<Step>) -> nat
    decreases steps.len(),
{
    if steps.len() == 0 {
        0
    } else {
        pushes(steps.drop_last()) + if steps.last() is Push {
            1nat
        } else {
            0
        }
    }
}

/// One pop unwinds several levels: after a push, and then any commands with more pushes among them,
/// a pop by the number of pushes brings back the matrices and the pointer of the first one, as long
/// as the stack did not run past its top.
pub proof fn law_a_pop_unwinds_several_levels(s: MatrixState, steps: Seq<Step>)
    requires
        s.positional(),
        0 <= s.pointer,
        s.pointer + 1 + pushes(steps) <= 31,
        s.position_stack.len() == 32,
        s.direction_stack.len() == 32,
    ensures
        ({
            let after = s.pushed().stepped_through(steps).popped(1 + pushes(steps) as int);
            &&& after.pointer == s.pointer
            &&& after.position == s.position
            &&& after.direction == s.direction
            &&& after.overflow == s.overflow
            &&& after.mode == s.mode
        }),
{
    lemma_steps_add_up(s.pushed(), steps);
}

/// Commands that only add to the stacks move the pointer by their pushes and leave every level
/// below it alone.
proof fn lemma_steps_add_up(s: MatrixState, steps: Seq<Step>)
    requires
        s.positional(),
        0 <= s.pointer,
        s.pointer + pushes(steps) <= 31,
        s.position_stack.len() == 32,
        s.direction_stack.len() == 32,
    ensures
        ({
            let after = s.stepped_through(steps);
            &&& after.mode == s.mode
            &&& after.overflow == s.overflow
            &&& after.pointer == s.pointer + pushes(steps)
            &&& after.position_stack.len() == 32
            &&& after.direction_stack.len() == 32
            &&& forall|i: int|
                0 <= i < s.pointer ==> #[trigger] after.position_stack[i] == s.position_stack[i]
            &&& forall|i: int|
                0 <= i < s.pointer ==> #[trigger] after.direction_stack[i] == s.direction_stack[i]
        }),
    decreases steps.len(),
{
    if steps.len() > 0 {
        lemma_steps_add_up(s, steps.drop_last());
    }
}

/// A pop overflows exactly when it would leave the stack, and then the pointer stops at the nearer
/// end.
pub proof fn law_a_pop_past_either_end_overflows(s: MatrixState, offset: int)
    requires
        s.positional(),
        0 <= s.pointer <= 31,
    ensures
        s.popped(offset).overflow == (s.overflow || !(0 <= s.pointer - offset <= 31)),
        s.popped(offset).pointer == arith::clamped(s.pointer - offset, 0, 31),
{
}

/// What was stored in a slot is what a restore from that slot brings back.
pub proof fn law_restore_gives_back_the_stored(s: MatrixState, slot: u32)
    requires
        s.position_stack.len() == 32,
        s.direction_stack.len() == 32,
    ensures
        s.stored(slot).recalled(slot) == s.stored(slot),
{
    broadcast use crate::bits::lemma_and_bound_u32;

    assert(s.stored(slot).recalled(slot) =~= s.stored(slot));
}

/// A stack that overflows says so and keeps its pointer inside.
pub proof fn law_the_pointer_stays_inside(s: MatrixState, offset: int)
    requires
        0 <= s.pointer <= 31,
    ensures
        0 <= s.pushed().pointer <= 31,
        0 <= s.popped(offset).pointer <= 31,
        s.overflow ==> s.pushed().overflow && s.popped(offset).overflow,
{
}

/// `MTX_SCALE` leaves the direction matrix alone, and outside `PositionAndDirection` so does
/// every other product.
pub proof fn law_only_mode_two_turns_directions(s: MatrixState, m: Seq<i32>, x: i32, y: i32, z: i32)
    ensures
        s.scaled(x, y, z).direction == s.direction,
        s.mode != MatrixMode::PositionAndDirection ==> s.multiplied(m).direction == s.direction,
{
}

} // verus!
