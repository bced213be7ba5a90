use vstd::prelude::*;

verus! {

/// What separates two labels on one line.
pub const LABEL_SEPARATOR: &'static str = ", ";

/// The line that shows `labels` in order, `LABEL_SEPARATOR` between each two.
pub open spec fn labels_line(labels: Seq<&str>) -> Seq<char>
    decreases labels.len(),
{
    if labels.len() == 0 {
        Seq::empty()
    } else if labels.len() == 1 {
        labels[0]@
    } else {
        labels_line(labels.drop_last()) + LABEL_SEPARATOR@ + labels.last()@
    }
}

/// Number of characters in all of `labels` together.
pub open spec fn labels_char_count(labels: Seq<&str>) -> nat
    decreases labels.len(),
{
    if labels.len() == 0 {
        0
    } else {
        labels_char_count(labels.drop_last()) + labels.last()@.len()
    }
}

/// Where the `i`-th label starts on a line: after the `i` labels before it,
/// each of them followed by a separator of two characters.
pub open spec fn label_offset(labels: Seq<&str>, i: int) -> int {
    labels_char_count(labels.take(i)) + 2 * i
}

proof fn lemma_char_count_take_monotone(labels: Seq<&str>, i: int, j: int)
    requires
        0 <= i <= j <= labels.len(),
    ensures
        labels_char_count(labels.take(i)) <= labels_char_count(labels.take(j)),
    decreases j - i,
{
    if i < j {
        lemma_char_count_take_monotone(labels, i, j - 1);
        assert(labels.take(j).drop_last() =~= labels.take(j - 1));
    }
}

proof fn lemma_label_offset_next(labels: Seq<&str>, i: int)
    requires
        0 <= i < labels.len(),
    ensures
        label_offset(labels, i + 1) == label_offset(labels, i) + labels[i]@.len() + 2,
        label_offset(labels, i) + labels[i]@.len() <= labels_char_count(labels) + 2 * i,
{
    assert(labels.take(i + 1).drop_last() =~= labels.take(i));
    lemma_char_count_take_monotone(labels, i + 1, labels.len() as int);
    assert(labels.take(labels.len() as int) =~= labels);
}

/// Appending a label to a list appends it to the list's line, after a
/// separator `", "` when the list was not empty, whatever the label is:
/// no label is ever left out or merged with another.
pub proof fn labels_line_push(labels: Seq<&str>, label: &str)
    ensures
        labels.len() == 0 ==> labels_line(labels.push(label)) == label@,
        labels.len() > 0 ==> labels_line(labels.push(label)) == labels_line(labels) + seq![
            ',',
            ' ',
        ] + label@,
{
    reveal_strlit(", ");
    assert(labels.push(label).drop_last() =~= labels);
}

proof fn lemma_line_len(labels: Seq<&str>)
    requires
        labels.len() > 0,
    ensures
        labels_line(labels).len() == labels_char_count(labels) + 2 * (labels.len() - 1),
    decreases labels.len(),
{
    reveal_strlit(", ");
    assert(LABEL_SEPARATOR@.len() == 2);
    if labels.len() == 1 {
        assert(labels.drop_last() =~= Seq::<&str>::empty());
        assert(labels_char_count(labels.drop_last()) == 0);
        assert(labels.last() == labels[0]);
    } else {
        let p = labels.drop_last();
        lemma_line_len(p);
        assert(labels_line(labels) == labels_line(p) + LABEL_SEPARATOR@ + labels.last()@);
    }
}

proof fn lemma_offsets_agree(labels: Seq<&str>, i: int)
    requires
        0 <= i < labels.len(),
    ensures
        label_offset(labels, i) == label_offset(labels.drop_last(), i),
{
    assert(labels.take(i) =~= labels.drop_last().take(i));
}

proof fn lemma_line_label_char(labels: Seq<&str>, i: int, k: int)
    requires
        0 <= i < labels.len(),
        0 <= k < labels[i]@.len(),
    ensures
        labels_line(labels)[label_offset(labels, i) + k] == labels[i]@[k],
    decreases labels.len(),
{
    reveal_strlit(", ");
    let n = labels.len() as int;
    if n == 1 {
        assert(labels.take(0) =~= Seq::<&str>::empty());
    } else {
        let p = labels.drop_last();
        lemma_line_len(p);
        assert(labels.take(n - 1) =~= p);
        if i < n - 1 {
            lemma_line_label_char(p, i, k);
            lemma_offsets_agree(labels, i);
            lemma_label_offset_next(p, i);
        }
    }
}

proof fn lemma_line_separator(labels: Seq<&str>, i: int)
    requires
        0 <= i < labels.len() - 1,
    ensures
        labels_line(labels)[label_offset(labels, i) + labels[i]@.len()] == ',',
        labels_line(labels)[label_offset(labels, i) + labels[i]@.len() + 1] == ' ',
    decreases labels.len(),
{
    reveal_strlit(", ");
    let n = labels.len() as int;
    let p = labels.drop_last();
    lemma_line_len(p);
    lemma_offsets_agree(labels, i);
    lemma_label_offset_next(p, i);
    assert(labels[i] == p[i]);
    if i < n - 2 {
        lemma_line_separator(p, i);
        lemma_label_offset_next(p, i + 1);
    } else {
        assert(p.take(n - 1) =~= p);
        assert(p.take(i + 1).drop_last() =~= p.take(i));
    }
}

/// The layout of a line of labels: it is as long as all labels together
/// plus two characters between each two; the `i`-th label stands at
/// `label_offset(labels, i)`, character for character, and is followed by
/// `','` and `' '` unless it is the last.
pub proof fn labels_line_layout(labels: Seq<&str>)
    ensures
        labels.len() == 0 ==> labels_line(labels).len() == 0,
        labels.len() > 0 ==> labels_line(labels).len() == labels_char_count(labels) + 2 * (
        labels.len() - 1),
        forall|i: int, k: int|
            #![trigger labels[i]@[k]]
            0 <= i < labels.len() && 0 <= k < labels[i]@.len() ==> labels_line(labels)[label_offset(
                labels,
                i,
            ) + k] == labels[i]@[k],
        forall|i: int|
            #![trigger labels[i]]
            0 <= i < labels.len() - 1 ==> labels_line(labels)[label_offset(labels, i)
                + labels[i]@.len()] == ',' && labels_line(labels)[label_offset(labels, i)
                + labels[i]@.len() + 1] == ' ',
{
    if labels.len() > 0 {
        lemma_line_len(labels);
    }
    assert forall|i: int, k: int|
        0 <= i < labels.len() && 0 <= k < labels[i]@.len() implies labels_line(labels)[label_offset(
            labels,
            i,
        ) + k] == #[trigger] labels[i]@[k] by {
        lemma_line_label_char(labels, i, k);
    }
    assert forall|i: int| 0 <= i < labels.len() - 1 implies labels_line(labels)[label_offset(
        labels,
        i,
    ) + #[trigger] labels[i]@.len()] == ',' && labels_line(labels)[label_offset(labels, i)
        + labels[i]@.len() + 1] == ' ' by {
        lemma_line_separator(labels, i);
    }
}

/// A `'static` string used where a shorter-lived one is expected keeps its text.
pub fn covariance_lifetimes<'short>() -> (short_lived: &'short str)
    ensures
        short_lived@ == "I live forever"@,
{
    let long_lived: &'static str = "I live forever";
    let short_lived: &'short str = long_lived;
    short_lived
}

/// The line that shows each label of `labels`, separated by `LABEL_SEPARATOR`.
pub fn format_labels(labels: &[&str]) -> (line: String)
    ensures
        line@ == labels_line(labels@),
        labels@.len() == 0 ==> line@.len() == 0,
        labels@.len() > 0 ==> line@.len() == labels_char_count(labels@) + 2 * (labels@.len() - 1),
        forall|i: int, k: int|
            #![trigger labels@[i]@[k]]
            0 <= i < labels@.len() && 0 <= k < labels@[i]@.len() ==> line@[label_offset(labels@, i)
                + k] == labels@[i]@[k],
        forall|i: int|
            #![trigger labels@[i]]
            0 <= i < labels@.len() - 1 ==> line@[label_offset(labels@, i) + labels@[i]@.len()]
                == ',' && line@[label_offset(labels@, i) + labels@[i]@.len() + 1] == ' ',
{
    let mut line = String::new();
    let n = labels.len();
    for i in 0..n
        invariant
            n == labels@.len(),
            line@ == labels_line(labels@.take(i as int)),
    {
        assert(labels@.take(i + 1).drop_last() == labels@.take(i as int));
        if i > 0 {
            line.append(LABEL_SEPARATOR);
        }
        line.append(labels[i]);
    }
    assert(labels@.take(n as int) == labels@);
    proof {
        labels_line_layout(labels@);
    }
    line
}

/// Containers of `'static` strings used as containers of shorter-lived ones:
/// a vector, the content of a box and an option, each with its text kept.
pub fn covariance_containers<'short>() -> (res: (Vec<&'short str>, &'short str, Option<&'short str>))
    ensures
        res.0@.len() == 2,
        res.0@[0]@ == "hello"@,
        res.0@[1]@ == "world"@,
        res.1@ == "boxed forever"@,
        res.2 is Some,
        res.2->0@ == "optional"@,
{
    let static_vec: Vec<&'static str> = vec!["hello", "world"];
    let labels: Vec<&'short str> = static_vec;
    let boxed: Box<&'static str> = Box::new("boxed forever");
    let unboxed: &'short str = *boxed;
    let opt: Option<&'static str> = Some("optional");
    let short_opt: Option<&'short str> = opt;
    (labels, unboxed, short_opt)
}

/// An array of `'static` strings seen as a slice of shorter-lived ones:
/// its length and its elements stay as they were.
pub fn covariance_slices_and_arrays<'short>() -> (res: (Vec<&'short str>, Vec<&'short str>))
    ensures
        res.0@.len() == 2,
        res.0@[0]@ == "hello"@,
        res.0@[1]@ == "world"@,
        res.1@.len() == 3,
        res.1@[0]@ == "a"@,
        res.1@[1]@ == "b"@,
        res.1@[2]@ == "c"@,
{
    let static_strs: [&'static str; 2] = ["hello", "world"];
    let short_slice: &[&'short str] = vstd::array::array_as_slice(&static_strs);
    let arr: [&'static str; 3] = ["a", "b", "c"];
    let coerced: &[&'short str] = vstd::array::array_as_slice(&arr);
    (vstd::slice::slice_to_vec(short_slice), vstd::slice::slice_to_vec(coerced))
}

} // verus!
