use vstd::prelude::*;
use vstd::string::to_string_from_display_ensures;

verus! {

/// Something that renders itself as Prometheus exposition text.
pub trait RenderToPrometheus {
    fn render(&self) -> String;
}

/// A counter's identity (name, type tag, help text) and its ordered label pairs.
pub struct PrometheusCounter<'a> {
    pub counter_name: &'a str,
    pub counter_type: &'a str,
    pub counter_help: &'a str,
    pub attributes: Vec<(&'a str, String)>,
}

/// The two header lines: `# HELP <name> <help>` and `# TYPE <name> <type>`, each ending in a newline.
pub open spec fn header_text(name: Seq<char>, ty: Seq<char>, help: Seq<char>) -> Seq<char> {
    "# HELP "@ + name + " "@ + help + "\n"@ + "# TYPE "@ + name + " "@ + ty + "\n"@
}

/// One label rendered as `key="value"`, with no escaping.
pub open spec fn label_text(label: (Seq<char>, Seq<char>)) -> Seq<char> {
    label.0 + "=\""@ + label.1 + "\""@
}

/// Each label rendered and preceded by a comma, in order.
pub open spec fn comma_labels(labels: Seq<(Seq<char>, Seq<char>)>) -> Seq<char>
    decreases labels.len(),
{
    if labels.len() == 0 {
        Seq::empty()
    } else {
        comma_labels(labels.drop_last()) + ","@ + label_text(labels.last())
    }
}

/// The labels rendered in order and joined by commas.
pub open spec fn labels_text(labels: Seq<(Seq<char>, Seq<char>)>) -> Seq<char> {
    if labels.len() == 0 {
        Seq::empty()
    } else {
        label_text(labels[0]) + comma_labels(labels.drop_first())
    }
}

/// One sample line: `<name> <value>` without labels, `<name>{<labels>} <value>` with them,
/// ending in a newline.
pub open spec fn sample_text(
    name: Seq<char>,
    labels: Seq<(Seq<char>, Seq<char>)>,
    value: Seq<char>,
) -> Seq<char> {
    if labels.len() == 0 {
        name + " "@ + value + "\n"@
    } else {
        name + "{"@ + labels_text(labels) + "} "@ + value + "\n"@
    }
}

/// Appending one label to a non-empty prefix adds a comma and that label.
proof fn lemma_labels_text_push(labels: Seq<(Seq<char>, Seq<char>)>, i: int)
    requires
        0 < i < labels.len(),
    ensures
        labels_text(labels.take(i + 1)) == labels_text(labels.take(i)) + ","@ + label_text(
            labels[i],
        ),
{
    let t = labels.take(i + 1);
    assert(t.drop_first().drop_last() =~= labels.take(i).drop_first());
    assert(t.drop_first().last() == labels[i]);
    assert(labels.take(i)[0] == labels[0]);
    assert(t[0] == labels[0]);
}

/// The text of a sample's label list that stands before label `i`: empty for the first label,
/// else the earlier labels and a comma.
pub open spec fn text_before_label(labels: Seq<(Seq<char>, Seq<char>)>, i: int) -> Seq<char> {
    if i == 0 {
        Seq::empty()
    } else {
        labels_text(labels.take(i)) + ","@
    }
}

proof fn lemma_comma_labels_concat(a: Seq<(Seq<char>, Seq<char>)>, b: Seq<(Seq<char>, Seq<char>)>)
    ensures
        comma_labels(a + b) == comma_labels(a) + comma_labels(b),
    decreases b.len(),
{
    if b.len() == 0 {
        assert(a + b =~= a);
    } else {
        lemma_comma_labels_concat(a, b.drop_last());
        assert((a + b).drop_last() =~= a + b.drop_last());
        assert((a + b).last() == b.last());
    }
}

/// Moves the parentheses of a five-part concatenation.
proof fn seq_concat_regroup(
    a: Seq<char>,
    b: Seq<char>,
    c: Seq<char>,
    d: Seq<char>,
    e: Seq<char>,
)
    ensures
        a + (b + c + d) + e == (a + b) + c + (d + e),
{
    assert(a + (b + c + d) + e =~= (a + b) + c + (d + e));
}

/// The label list splits at any label into the text before it, the label, and the text after it.
proof fn lemma_labels_text_split(labels: Seq<(Seq<char>, Seq<char>)>, i: int)
    requires
        0 <= i < labels.len(),
    ensures
        labels_text(labels) == text_before_label(labels, i) + label_text(labels[i]) + comma_labels(
            labels.skip(i + 1),
        ),
{
    if i == 0 {
        assert(labels.drop_first() =~= labels.skip(1));
    } else {
        let front = labels.take(i).drop_first().push(labels[i]);
        assert(labels.drop_first() =~= front + labels.skip(i + 1));
        lemma_comma_labels_concat(front, labels.skip(i + 1));
        assert(front.drop_last() =~= labels.take(i).drop_first());
        assert(labels.take(i)[0] == labels[0]);
    }
}

/// Changing the value of label `i` changes only that label's text in a sample line: the text
/// before it (name and earlier labels) and after it (later labels and the value) stay the same.
pub proof fn lemma_label_update_is_local(
    name: Seq<char>,
    labels: Seq<(Seq<char>, Seq<char>)>,
    i: int,
    new_value: Seq<char>,
    value: Seq<char>,
)
    requires
        0 <= i < labels.len(),
    ensures
        ({
            let updated = labels.update(i, (labels[i].0, new_value));
            let before = name + "{"@ + text_before_label(labels, i);
            let after = comma_labels(labels.skip(i + 1)) + "} "@ + value + "\n"@;
            &&& sample_text(name, labels, value) == before + label_text(labels[i]) + after
            &&& sample_text(name, updated, value) == before + label_text((labels[i].0, new_value))
                + after
        }),
{
    let updated = labels.update(i, (labels[i].0, new_value));
    let pre = text_before_label(labels, i);
    let post = comma_labels(labels.skip(i + 1));
    lemma_labels_text_split(labels, i);
    lemma_labels_text_split(updated, i);
    assert(updated.take(i) =~= labels.take(i));
    assert(updated.skip(i + 1) =~= labels.skip(i + 1));
    assert(text_before_label(updated, i) == pre);
    assert(updated[i] == (labels[i].0, new_value));
    assert(labels_text(updated) == pre + label_text(updated[i]) + post);
    seq_concat_regroup(name + "{"@, pre, label_text(labels[i]), post, "} "@ + value + "\n"@);
    seq_concat_regroup(name + "{"@, pre, label_text(updated[i]), post, "} "@ + value + "\n"@);
}

impl<'a> PrometheusCounter<'a> {
    /// The label pairs as text pairs, in their order.
    pub open spec fn labels(&self) -> Seq<(Seq<char>, Seq<char>)> {
        self.attributes@.map_values(|p: (&'a str, String)| (p.0@, p.1@))
    }

    /// A counter with the given identity and no labels.
    pub fn new(counter_name: &'a str, counter_type: &'a str, counter_help: &'a str) -> (r:
        PrometheusCounter<'a>)
        ensures
            r.counter_name@ == counter_name@,
            r.counter_type@ == counter_type@,
            r.counter_help@ == counter_help@,
            r.attributes@.len() == 0,
    {
        PrometheusCounter { counter_name, counter_type, counter_help, attributes: Vec::new() }
    }

    /// Renders the `# HELP` and `# TYPE` lines; the labels play no part.
    pub fn render_header(&self) -> (r: String)
        ensures
            r@ == header_text(self.counter_name@, self.counter_type@, self.counter_help@),
    {
        let mut s = String::from_str("# HELP ");
        s.append(self.counter_name);
        s.append(" ");
        s.append(self.counter_help);
        s.append("\n");
        s.append("# TYPE ");
        s.append(self.counter_name);
        s.append(" ");
        s.append(self.counter_type);
        s.append("\n");
        s
    }

    /// Renders one sample line for a value already in text form.
    pub fn render_sample(&self, value: &str) -> (r: String)
        ensures
            r@ == sample_text(self.counter_name@, self.labels(), value@),
    {
        let mut s = String::from_str(self.counter_name);
        if self.attributes.len() == 0 {
            s.append(" ");
        } else {
            s.append("{");
            let n = self.attributes.len();
            let mut i: usize = 0;
            while i < n
                invariant
                    n == self.attributes@.len(),
                    0 < n,
                    i <= n,
                    s@ == self.counter_name@ + "{"@ + labels_text(self.labels().take(i as int)),
                decreases n - i,
            {
                let pair = &self.attributes[i];
                proof {
                    assert(self.labels()[i as int] == (pair.0@, pair.1@));
                    if i > 0 {
                        lemma_labels_text_push(self.labels(), i as int);
                    } else {
                        assert(self.labels().take(1).drop_first() =~= Seq::empty());
                    }
                }
                if i > 0 {
                    s.append(",");
                }
                s.append(pair.0);
                s.append("=\"");
                s.append(pair.1.as_str());
                s.append("\"");
                i = i + 1;
            }
            assert(self.labels().take(n as int) =~= self.labels());
            s.append("} ");
        }
        s.append(value);
        s.append("\n");
        s
    }

    /// Rendering reads the counter and nothing else: two header renders of an unchanged counter
    /// give the same text, and so do two sample renders of it with the same value.
    pub proof fn lemma_render_repeatable(
        &self,
        value: Seq<char>,
        header1: String,
        header2: String,
        sample1: String,
        sample2: String,
    )
        requires
            header1@ == header_text(self.counter_name@, self.counter_type@, self.counter_help@),
            header2@ == header_text(self.counter_name@, self.counter_type@, self.counter_help@),
            sample1@ == sample_text(self.counter_name@, self.labels(), value),
            sample2@ == sample_text(self.counter_name@, self.labels(), value),
        ensures
            header1@ == header2@,
            sample1@ == sample2@,
    {
    }

    /// Renders one sample line for any displayable value, through its `to_string` text.
    pub fn render_counter<N: std::fmt::Display>(&self, value: N) -> (r: String)
        ensures
            exists|t: String|
                to_string_from_display_ensures::<N>(&value, t) && r@ == sample_text(
                    self.counter_name@,
                    self.labels(),
                    t@,
                ),
    {
        let t = value.to_string();
        self.render_sample(t.as_str())
    }
}

} // verus!
