//! Where the columns of a per-instance affine transform sit in a vertex
//! buffer.

use vstd::prelude::*;

verus! {

/// Trusted: `wgpu::VertexFormat::Float32x3.size()` is 12 bytes, three
/// 4-byte floats.
#[verifier::external_body]
fn float32x3_size() -> (r: u64)
    ensures
        r == 12,
{
    wgpu::VertexFormat::Float32x3.size()
}

/// A vertex attribute holding one column: three 32-bit floats at `offset`
/// bytes into the element, read at `shader_location`.
#[derive(Debug, Clone, Copy, PartialEq, Eq, Structural)]
pub struct ColumnAttribute {
    pub offset: u64,
    pub shader_location: u32,
}

/// The attributes of the four columns of an affine transform, laid one
/// after the other, read at the given shader locations.
pub fn transform_column_attributes(
    x_location: u32,
    y_location: u32,
    z_location: u32,
    w_location: u32,
) -> (r: Vec<ColumnAttribute>)
    ensures
        r@.len() == 4,
        forall|i: int| 0 <= i < 4 ==> #[trigger] r@[i].offset == 12 * i,
        r@[0].shader_location == x_location,
        r@[1].shader_location == y_location,
        r@[2].shader_location == z_location,
        r@[3].shader_location == w_location,
{
    let column = float32x3_size();
    let mut r: Vec<ColumnAttribute> = Vec::new();
    r.push(ColumnAttribute { offset: 0, shader_location: x_location });
    r.push(ColumnAttribute { offset: column, shader_location: y_location });
    r.push(ColumnAttribute { offset: column * 2, shader_location: z_location });
    r.push(ColumnAttribute { offset: column * 3, shader_location: w_location });
    r
}


/// The bytes taken by the first `k` fields (size, shader location).
pub open spec fn size_before(fields: Seq<(u64, u32)>, k: int) -> int
    decreases k,
{
    if k <= 0 || k > fields.len() {
        0
    } else {
        size_before(fields, k - 1) + fields[k - 1].0
    }
}

proof fn lemma_size_before_grows(fields: Seq<(u64, u32)>, j: int, k: int)
    requires
        0 <= j <= k <= fields.len(),
    ensures
        size_before(fields, j) <= size_before(fields, k),
    decreases k - j,
{
    if j < k {
        lemma_size_before_grows(fields, j, k - 1);
    }
}

/// The bytes taken by all of `fields` (size, shader location): the first
/// field's size plus the bytes of the rest.
pub open spec fn sum_of_sizes(fields: Seq<(u64, u32)>) -> int
    decreases fields.len(),
{
    if fields.len() == 0 {
        0
    } else {
        fields[0].0 + sum_of_sizes(fields.drop_first())
    }
}

proof fn lemma_sum_of_sizes_push(fields: Seq<(u64, u32)>, last: (u64, u32))
    ensures
        sum_of_sizes(fields.push(last)) == sum_of_sizes(fields) + last.0,
    decreases fields.len(),
{
    if fields.len() > 0 {
        assert(fields.push(last).drop_first() =~= fields.drop_first().push(last));
        assert(fields.push(last)[0] == fields[0]);
        lemma_sum_of_sizes_push(fields.drop_first(), last);
    } else {
        let empty = Seq::<(u64, u32)>::empty();
        assert(fields.push(last).drop_first() =~= empty);
        assert(fields.push(last)[0] == last);
        assert(sum_of_sizes(empty) == 0);
    }
}

/// A packed layout leaves no gap before its first field: the first field
/// starts at offset 0, and each field starts at the total size of the fields
/// before it, so the whole element takes exactly the sum of the sizes of its
/// fields.
pub proof fn law_packed_offsets_are_sums_of_preceding_sizes(fields: Seq<(u64, u32)>)
    ensures
        size_before(fields, 0) == 0,
        forall|k: int|
            0 <= k <= fields.len() ==> #[trigger] size_before(fields, k) == sum_of_sizes(
                fields.take(k),
            ),
        size_before(fields, fields.len() as int) == sum_of_sizes(fields),
{
    assert forall|k: int| 0 <= k <= fields.len() implies #[trigger] size_before(fields, k)
        == sum_of_sizes(fields.take(k)) by {
        lemma_size_before_is_sum(fields, k);
    }
    assert(fields.take(fields.len() as int) =~= fields);
}

proof fn lemma_size_before_is_sum(fields: Seq<(u64, u32)>, k: int)
    requires
        0 <= k <= fields.len(),
    ensures
        size_before(fields, k) == sum_of_sizes(fields.take(k)),
    decreases k,
{
    if k == 0 {
        assert(fields.take(0) =~= Seq::<(u64, u32)>::empty());
    } else {
        lemma_size_before_is_sum(fields, k - 1);
        assert(fields.take(k) =~= fields.take(k - 1).push(fields[k - 1]));
        lemma_sum_of_sizes_push(fields.take(k - 1), fields[k - 1]);
    }
}

/// The attributes of an element made of `fields` (each its size in bytes
/// and the shader location it is read at), packed one after the other from
/// offset 0 in the order given, and the stride of the element: the bytes of
/// all fields, with no gap and nothing left over.
pub fn packed_attributes(fields: &Vec<(u64, u32)>) -> (r: (Vec<ColumnAttribute>, u64))
    requires
        size_before(fields@, fields@.len() as int) <= u64::MAX,
    ensures
        r.0@.len() == fields@.len(),
        forall|k: int|
            0 <= k < fields@.len() ==> (#[trigger] r.0@[k]).offset == size_before(fields@, k)
                && r.0@[k].shader_location == fields@[k].1,
        forall|k: int|
            0 <= k < fields@.len() - 1 ==> (#[trigger] r.0@[k]).offset + fields@[k].0 == r.0@[k
                + 1].offset,
        fields@.len() > 0 ==> r.0@[fields@.len() - 1].offset + fields@[fields@.len() - 1].0 == r.1,
        r.1 == size_before(fields@, fields@.len() as int),
        fields@.len() > 0 ==> r.0@[0].offset == 0,
        forall|k: int|
            0 <= k < fields@.len() ==> (#[trigger] r.0@[k]).offset == sum_of_sizes(fields@.take(k)),
        r.1 == sum_of_sizes(fields@),
{
    let mut attributes: Vec<ColumnAttribute> = Vec::new();
    let mut offset: u64 = 0;
    let mut k: usize = 0;
    while k < fields.len()
        invariant
            k <= fields@.len(),
            size_before(fields@, fields@.len() as int) <= u64::MAX,
            attributes@.len() == k,
            offset == size_before(fields@, k as int),
            forall|q: int|
                0 <= q < k ==> (#[trigger] attributes@[q]).offset == size_before(fields@, q)
                    && attributes@[q].shader_location == fields@[q].1,
        decreases fields@.len() - k,
    {
        proof {
            lemma_size_before_grows(fields@, k + 1, fields@.len() as int);
        }
        attributes.push(ColumnAttribute { offset, shader_location: fields[k].1 });
        offset = offset + fields[k].0;
        k = k + 1;
    }
    proof {
        law_packed_offsets_are_sums_of_preceding_sizes(fields@);
    }
    (attributes, offset)
}

} // verus!
