//! The gauge registry: a fixed set of declared metric families, each holding
//! one current value per label combination ever observed. Label combinations
//! are only ever added, never removed; setting a value overwrites the entry
//! for its combination or appends a fresh one.

use vstd::prelude::*;
use vstd::string::StrSliceExecFns;
use crate::text::{push_char, push_str};
use crate::value::{GaugeValue, push_value};

verus! {

/// The mathematical content of one registry entry: a label combination and
/// its current value.
pub struct EntryModel {
    pub labels: Seq<Seq<char>>,
    pub value: GaugeValue,
}

/// The mathematical content of one metric family: its name, help text, label
/// schema, and the entries observed so far, in observation order.
pub struct FamilyModel {
    pub name: Seq<char>,
    pub help: Seq<char>,
    pub label_names: Seq<Seq<char>>,
    pub entries: Seq<EntryModel>,
}

/// One stored label combination with its current value.
pub struct MetricEntry {
    pub label_values: Vec<String>,
    pub value: GaugeValue,
}

/// One declared gauge with every label combination observed for it.
pub struct MetricFamily {
    pub name: String,
    pub help: String,
    pub label_names: Vec<String>,
    pub entries: Vec<MetricEntry>,
}

/// The registry: every declared family, in declaration order.
pub struct Registry {
    pub families: Vec<MetricFamily>,
}

impl View for MetricEntry {
    type V = EntryModel;

    open spec fn view(&self) -> EntryModel {
        EntryModel { labels: self.label_values.deep_view(), value: self.value }
    }
}

impl View for MetricFamily {
    type V = FamilyModel;

    open spec fn view(&self) -> FamilyModel {
        FamilyModel {
            name: self.name@,
            help: self.help@,
            label_names: self.label_names.deep_view(),
            entries: self.entries@.map_values(|e: MetricEntry| e@),
        }
    }
}

impl View for Registry {
    type V = Seq<FamilyModel>;

    open spec fn view(&self) -> Seq<FamilyModel> {
        self.families@.map_values(|f: MetricFamily| f@)
    }
}

/// Whether some family is named `name`.
pub open spec fn has_family(fams: Seq<FamilyModel>, name: Seq<char>) -> bool {
    exists|i: int| 0 <= i < fams.len() && fams[i].name == name
}

/// The position of the family named `name` (meaningful when one exists).
pub open spec fn family_index(fams: Seq<FamilyModel>, name: Seq<char>) -> int {
    choose|i: int| 0 <= i < fams.len() && fams[i].name == name
}

/// How many labels the family named `name` declares.
pub open spec fn family_arity(fams: Seq<FamilyModel>, name: Seq<char>) -> nat {
    fams[family_index(fams, name)].label_names.len()
}

/// Whether `f` holds an entry for the label combination `labels`.
pub open spec fn has_entry(f: FamilyModel, labels: Seq<Seq<char>>) -> bool {
    exists|i: int| 0 <= i < f.entries.len() && f.entries[i].labels == labels
}

/// The position of the entry for `labels` in `f` (meaningful when one exists).
pub open spec fn entry_index(f: FamilyModel, labels: Seq<Seq<char>>) -> int {
    choose|i: int| 0 <= i < f.entries.len() && f.entries[i].labels == labels
}

/// The value currently stored for `(name, labels)`, if any.
pub open spec fn gauge_of(
    fams: Seq<FamilyModel>,
    name: Seq<char>,
    labels: Seq<Seq<char>>,
) -> Option<GaugeValue> {
    if has_family(fams, name) {
        let f = fams[family_index(fams, name)];
        if has_entry(f, labels) {
            Some(f.entries[entry_index(f, labels)].value)
        } else {
            None
        }
    } else {
        None
    }
}

/// A family is well formed when every entry fits its label schema, every
/// value is renderable, and no label combination repeats.
pub open spec fn family_wf(f: FamilyModel) -> bool {
    &&& forall|i: int|
        0 <= i < f.entries.len() ==> (#[trigger] f.entries[i]).labels.len()
            == f.label_names.len() && f.entries[i].value.wf()
    &&& forall|i: int, j: int|
        0 <= i < j < f.entries.len() ==> f.entries[i].labels != f.entries[j].labels
}

/// A registry is well formed when every family is, and no name repeats.
pub open spec fn registry_wf(fams: Seq<FamilyModel>) -> bool {
    &&& forall|i: int| 0 <= i < fams.len() ==> family_wf(#[trigger] fams[i])
    &&& forall|i: int, j: int| 0 <= i < j < fams.len() ==> fams[i].name != fams[j].name
}

/// `f` with the value for `labels` overwritten, or appended when `labels` was
/// never observed before.
pub open spec fn set_entry_model(
    f: FamilyModel,
    labels: Seq<Seq<char>>,
    v: GaugeValue,
) -> FamilyModel {
    let e = EntryModel { labels: labels, value: v };
    if has_entry(f, labels) {
        FamilyModel {
            name: f.name,
            help: f.help,
            label_names: f.label_names,
            entries: f.entries.update(entry_index(f, labels), e),
        }
    } else {
        FamilyModel {
            name: f.name,
            help: f.help,
            label_names: f.label_names,
            entries: f.entries.push(e),
        }
    }
}

/// The registry after setting `(name, labels)` to `v`.
pub open spec fn set_model(
    fams: Seq<FamilyModel>,
    name: Seq<char>,
    labels: Seq<Seq<char>>,
    v: GaugeValue,
) -> Seq<FamilyModel> {
    if has_family(fams, name) {
        let fi = family_index(fams, name);
        fams.update(fi, set_entry_model(fams[fi], labels, v))
    } else {
        fams
    }
}

/// How one character of a label value is rendered: backslashes, double
/// quotes and line breaks are escaped, everything else stands as itself.
pub open spec fn escape_char_label(c: char) -> Seq<char> {
    if c == '\\' {
        "\\\\"@
    } else if c == '"' {
        "\\\""@
    } else if c == '\n' {
        "\\n"@
    } else {
        seq![c]
    }
}

/// A label value with every character escaped.
pub open spec fn escape_label(s: Seq<char>) -> Seq<char>
    decreases s.len(),
{
    if s.len() == 0 {
        Seq::empty()
    } else {
        escape_label(s.drop_last()) + escape_char_label(s.last())
    }
}

/// How one character of a help text is rendered: backslashes and line breaks
/// are escaped, everything else stands as itself.
pub open spec fn escape_char_help(c: char) -> Seq<char> {
    if c == '\\' {
        "\\\\"@
    } else if c == '\n' {
        "\\n"@
    } else {
        seq![c]
    }
}

/// A help text with every character escaped.
pub open spec fn escape_help(s: Seq<char>) -> Seq<char>
    decreases s.len(),
{
    if s.len() == 0 {
        Seq::empty()
    } else {
        escape_help(s.drop_last()) + escape_char_help(s.last())
    }
}

/// One rendered `name="value"` pair.
pub open spec fn label_pair(name: Seq<char>, val: Seq<char>) -> Seq<char> {
    name + "=\""@ + escape_label(val) + "\""@
}

/// The rendered pairs of one entry, comma-separated, in schema order.
pub open spec fn label_pairs(names: Seq<Seq<char>>, vals: Seq<Seq<char>>) -> Seq<char>
    decreases names.len(),
{
    if names.len() == 0 {
        Seq::empty()
    } else if names.len() == 1 {
        label_pair(names[0], vals[0])
    } else {
        label_pairs(names.drop_last(), vals.drop_last()) + ","@ + label_pair(
            names.last(),
            vals.last(),
        )
    }
}

/// One sample line: the metric name, the brace-wrapped pairs when the family
/// has labels, a space, the value, and a line break.
pub open spec fn entry_line(
    name: Seq<char>,
    label_names: Seq<Seq<char>>,
    e: EntryModel,
) -> Seq<char> {
    if label_names.len() == 0 {
        name + " "@ + e.value.rendered() + "\n"@
    } else {
        name + "{"@ + label_pairs(label_names, e.labels) + "} "@ + e.value.rendered() + "\n"@
    }
}

/// The sample lines of a family, in observation order.
pub open spec fn entry_lines(
    name: Seq<char>,
    label_names: Seq<Seq<char>>,
    entries: Seq<EntryModel>,
) -> Seq<char>
    decreases entries.len(),
{
    if entries.len() == 0 {
        Seq::empty()
    } else {
        entry_lines(name, label_names, entries.drop_last()) + entry_line(
            name,
            label_names,
            entries.last(),
        )
    }
}

/// The rendered text of one family: nothing at all while it has no observed
/// entries; otherwise its help line, its type line, and its sample lines.
pub open spec fn family_text(f: FamilyModel) -> Seq<char> {
    if f.entries.len() == 0 {
        Seq::empty()
    } else {
        "# HELP "@ + f.name + " "@ + escape_help(f.help) + "\n"@ + "# TYPE "@ + f.name
            + " gauge\n"@ + entry_lines(f.name, f.label_names, f.entries)
    }
}

/// The whole exposition text: every family's text, in declaration order.
pub open spec fn render_model(fams: Seq<FamilyModel>) -> Seq<char>
    decreases fams.len(),
{
    if fams.len() == 0 {
        Seq::empty()
    } else {
        render_model(fams.drop_last()) + family_text(fams.last())
    }
}

/// Appends a label value with escaping.
fn push_escaped_label(out: &mut String, s: &str)
    ensures
        final(out)@ == old(out)@ + escape_label(s@),
{
    let len = s.unicode_len();
    let mut i: usize = 0;
    while i < len
        invariant
            len == s@.len(),
            i <= len,
            out@ == old(out)@ + escape_label(s@.take(i as int)),
        decreases len - i,
    {
        let c = s.get_char(i);
        if c == '\\' {
            push_str(out, "\\\\");
        } else if c == '"' {
            push_str(out, "\\\"");
        } else if c == '\n' {
            push_str(out, "\\n");
        } else {
            push_char(out, c);
        }
        proof {
            assert(s@.take(i as int + 1).drop_last() =~= s@.take(i as int));
            assert(out@ =~= old(out)@ + escape_label(s@.take(i as int + 1)));
        }
        i = i + 1;
    }
    proof {
        assert(s@.take(len as int) =~= s@);
    }
}

/// Appends a help text with escaping.
fn push_escaped_help(out: &mut String, s: &str)
    ensures
        final(out)@ == old(out)@ + escape_help(s@),
{
    let len = s.unicode_len();
    let mut i: usize = 0;
    while i < len
        invariant
            len == s@.len(),
            i <= len,
            out@ == old(out)@ + escape_help(s@.take(i as int)),
        decreases len - i,
    {
        let c = s.get_char(i);
        if c == '\\' {
            push_str(out, "\\\\");
        } else if c == '\n' {
            push_str(out, "\\n");
        } else {
            push_char(out, c);
        }
        proof {
            assert(s@.take(i as int + 1).drop_last() =~= s@.take(i as int));
            assert(out@ =~= old(out)@ + escape_help(s@.take(i as int + 1)));
        }
        i = i + 1;
    }
    proof {
        assert(s@.take(len as int) =~= s@);
    }
}

/// Appends the comma-separated pairs of one entry.
fn push_label_pairs(out: &mut String, label_names: &Vec<String>, e: &MetricEntry)
    requires
        e@.labels.len() == label_names.deep_view().len(),
    ensures
        final(out)@ == old(out)@ + label_pairs(label_names.deep_view(), e@.labels),
{
    let ghost names = label_names.deep_view();
    let ghost vals = e@.labels;
    let mut k: usize = 0;
    while k < label_names.len()
        invariant
            names == label_names.deep_view(),
            vals == e@.labels,
            names.len() == vals.len(),
            k <= names.len(),
            out@ == old(out)@ + label_pairs(names.take(k as int), vals.take(k as int)),
        decreases label_names.len() - k,
    {
        if k > 0 {
            push_str(out, ",");
        }
        push_str(out, label_names[k].as_str());
        push_str(out, "=\"");
        push_escaped_label(out, e.label_values[k].as_str());
        push_str(out, "\"");
        proof {
            assert(names.take(k as int + 1).drop_last() =~= names.take(k as int));
            assert(vals.take(k as int + 1).drop_last() =~= vals.take(k as int));
            assert(out@ =~= old(out)@ + label_pairs(
                names.take(k as int + 1),
                vals.take(k as int + 1),
            ));
        }
        k = k + 1;
    }
    proof {
        assert(names.take(names.len() as int) =~= names);
        assert(vals.take(vals.len() as int) =~= vals);
    }
}

/// Appends one sample line.
fn push_entry_line(out: &mut String, name: &str, label_names: &Vec<String>, e: &MetricEntry)
    requires
        e@.labels.len() == label_names.deep_view().len(),
        e.value.wf(),
    ensures
        final(out)@ == old(out)@ + entry_line(name@, label_names.deep_view(), e@),
{
    push_str(out, name);
    if label_names.len() > 0 {
        push_str(out, "{");
        push_label_pairs(out, label_names, e);
        push_str(out, "} ");
    } else {
        push_str(out, " ");
    }
    push_value(out, e.value);
    push_str(out, "\n");
    proof {
        assert(out@ =~= old(out)@ + entry_line(name@, label_names.deep_view(), e@));
    }
}

/// Appends the full text of one family.
fn push_family_text(out: &mut String, f: &MetricFamily)
    requires
        family_wf(f@),
    ensures
        final(out)@ == old(out)@ + family_text(f@),
{
    if f.entries.len() == 0 {
        return ;
    }
    push_str(out, "# HELP ");
    push_str(out, f.name.as_str());
    push_str(out, " ");
    push_escaped_help(out, f.help.as_str());
    push_str(out, "\n");
    push_str(out, "# TYPE ");
    push_str(out, f.name.as_str());
    push_str(out, " gauge\n");
    let ghost header = out@;
    let mut j: usize = 0;
    while j < f.entries.len()
        invariant
            family_wf(f@),
            j <= f.entries.len(),
            out@ == header + entry_lines(f@.name, f@.label_names, f@.entries.take(j as int)),
        decreases f.entries.len() - j,
    {
        proof {
            assert(f@.entries[j as int] == f.entries@[j as int]@);
        }
        push_entry_line(out, f.name.as_str(), &f.label_names, &f.entries[j]);
        proof {
            assert(f@.entries.take(j as int + 1).drop_last() =~= f@.entries.take(j as int));
            assert(out@ =~= header + entry_lines(
                f@.name,
                f@.label_names,
                f@.entries.take(j as int + 1),
            ));
        }
        j = j + 1;
    }
    proof {
        assert(f@.entries.take(f@.entries.len() as int) =~= f@.entries);
        assert(out@ =~= old(out)@ + family_text(f@));
    }
}

/// In a well-formed registry, any position whose family carries `name` is the
/// position `family_index` denotes.
pub proof fn lemma_family_index_unique(fams: Seq<FamilyModel>, name: Seq<char>, i: int)
    requires
        forall|a: int, b: int| 0 <= a < b < fams.len() ==> fams[a].name != fams[b].name,
        0 <= i < fams.len(),
        fams[i].name == name,
    ensures
        has_family(fams, name),
        family_index(fams, name) == i,
{
    assert(has_family(fams, name));
    let k = family_index(fams, name);
    if k < i {
        assert(fams[k].name != fams[i].name);
    } else if k > i {
        assert(fams[i].name != fams[k].name);
    }
}

/// In a well-formed family, any position whose entry carries `labels` is the
/// position `entry_index` denotes.
pub proof fn lemma_entry_index_unique(f: FamilyModel, labels: Seq<Seq<char>>, i: int)
    requires
        family_wf(f),
        0 <= i < f.entries.len(),
        f.entries[i].labels == labels,
    ensures
        has_entry(f, labels),
        entry_index(f, labels) == i,
{
    assert(has_entry(f, labels));
    let k = entry_index(f, labels);
    if k < i {
        assert(f.entries[k].labels != f.entries[i].labels);
    } else if k > i {
        assert(f.entries[i].labels != f.entries[k].labels);
    }
}

/// Whether two label vectors carry the same text.
fn labels_match(a: &Vec<String>, b: &Vec<String>) -> (r: bool)
    ensures
        r == (a.deep_view() == b.deep_view()),
{
    if a.len() != b.len() {
        assert(a.deep_view().len() != b.deep_view().len());
        return false;
    }
    let mut i: usize = 0;
    while i < a.len()
        invariant
            i <= a.len(),
            a@.len() == b@.len(),
            forall|j: int| 0 <= j < i ==> a.deep_view()[j] == b.deep_view()[j],
        decreases a.len() - i,
    {
        if !a[i].eq(&b[i]) {
            assert(a.deep_view()[i as int] != b.deep_view()[i as int]);
            return false;
        }
        i = i + 1;
    }
    proof {
        assert(a.deep_view() =~= b.deep_view());
    }
    true
}

impl Registry {
    /// Well-formedness of the whole registry.
    pub open spec fn wf(&self) -> bool {
        registry_wf(self@)
    }

    /// An empty registry with nothing declared.
    pub fn new() -> (r: Registry)
        ensures
            r@ == Seq::<FamilyModel>::empty(),
            r.wf(),
    {
        let r = Registry { families: Vec::new() };
        proof {
            assert(r@ =~= Seq::<FamilyModel>::empty());
        }
        r
    }

    /// The position of the family named `name`, when one exists.
    fn find_family(&self, name: &str) -> (r: Option<usize>)
        requires
            self.wf(),
        ensures
            r is Some <==> has_family(self@, name@),
            r is Some ==> r->Some_0 < self@.len() && r->Some_0 == family_index(self@, name@),
    {
        let mut i: usize = 0;
        while i < self.families.len()
            invariant
                i <= self.families.len(),
                self.wf(),
                forall|j: int| 0 <= j < i ==> self@[j].name != name@,
            decreases self.families.len() - i,
        {
            if crate::text::str_eq(self.families[i].name.as_str(), name) {
                proof {
                    lemma_family_index_unique(self@, name@, i as int);
                }
                return Some(i);
            }
            i = i + 1;
        }
        None
    }

    /// Declares a fresh gauge family; refuses a name that was declared
    /// before, leaving the registry untouched.
    pub fn declare(&mut self, name: String, help: String, label_names: Vec<String>) -> (r: Result<
        (),
        (),
    >)
        requires
            old(self).wf(),
        ensures
            final(self).wf(),
            r is Ok <==> !has_family(old(self)@, name@),
            r is Ok ==> final(self)@ == old(self)@.push(
                FamilyModel {
                    name: name@,
                    help: help@,
                    label_names: label_names.deep_view(),
                    entries: Seq::empty(),
                },
            ),
            r is Err ==> final(self)@ == old(self)@,
    {
        if self.find_family(name.as_str()).is_some() {
            return Err(());
        }
        let fam = MetricFamily { name, help, label_names, entries: Vec::new() };
        proof {
            let m = fam@;
            assert(m.entries =~= Seq::<EntryModel>::empty());
        }
        self.families.push(fam);
        proof {
            assert(self@ =~= old(self)@.push(
                FamilyModel {
                    name: fam@.name,
                    help: fam@.help,
                    label_names: fam@.label_names,
                    entries: Seq::empty(),
                },
            ));
            assert forall|i: int, j: int| 0 <= i < j < self@.len() implies self@[i].name
                != self@[j].name by {
                if j == self@.len() - 1 {
                    assert(!has_family(old(self)@, self@[j].name));
                }
            }
        }
        Ok(())
    }

    /// Sets the value of `(name, label_values)`: overwrites the entry for
    /// that combination, or appends it when it was never observed before.
    /// Every other entry and every other family is untouched.
    pub fn set(&mut self, name: &str, label_values: Vec<String>, value: GaugeValue)
        requires
            old(self).wf(),
            has_family(old(self)@, name@),
            family_arity(old(self)@, name@) == label_values@.len(),
            value.wf(),
        ensures
            final(self).wf(),
            final(self)@ == set_model(old(self)@, name@, label_values.deep_view(), value),
    {
        let fi_opt = self.find_family(name);
        let fi = fi_opt.unwrap();
        let ghost labels = label_values.deep_view();
        let ghost old_fam = self@[fi as int];
        let fam = &mut self.families[fi];
        let mut ei_found: Option<usize> = None;
        let mut i: usize = 0;
        while i < fam.entries.len()
            invariant
                i <= fam.entries.len(),
                fam@ == old_fam,
                labels == label_values.deep_view(),
                ei_found is None ==> forall|j: int| 0 <= j < i ==> old_fam.entries[j].labels
                    != labels,
                ei_found is Some ==> ei_found->Some_0 < old_fam.entries.len()
                    && old_fam.entries[ei_found->Some_0 as int].labels == labels,
            decreases fam.entries.len() - i,
        {
            if ei_found.is_none() && labels_match(&fam.entries[i].label_values, &label_values) {
                ei_found = Some(i);
            }
            i = i + 1;
        }
        match ei_found {
            Some(ei) => {
                proof {
                    lemma_entry_index_unique(old_fam, labels, ei as int);
                }
                fam.entries.set(ei, MetricEntry { label_values, value });
                proof {
                    assert(fam@.entries =~= set_entry_model(old_fam, labels, value).entries);
                    assert(fam@ == set_entry_model(old_fam, labels, value));
                }
            },
            None => {
                fam.entries.push(MetricEntry { label_values, value });
                proof {
                    assert(!has_entry(old_fam, labels));
                    assert(fam@.entries =~= set_entry_model(old_fam, labels, value).entries);
                    assert(fam@ == set_entry_model(old_fam, labels, value));
                }
            },
        }
        proof {
            lemma_family_index_unique(old(self)@, name@, fi as int);
            assert(self@ =~= set_model(old(self)@, name@, labels, value));
            assert forall|k: int| 0 <= k < self@.len() implies family_wf(self@[k]) by {
                if k != fi as int {
                    assert(self@[k] == old(self)@[k]);
                }
            }
        }
    }

    /// Serializes the current values of every observed entry to the plaintext
    /// exposition format. The result is a function of the stored state alone,
    /// so two renderings with no update between them are identical.
    pub fn render(&self) -> (r: String)
        requires
            self.wf(),
        ensures
            r@ == render_model(self@),
    {
        let mut out = String::new();
        let mut i: usize = 0;
        while i < self.families.len()
            invariant
                self.wf(),
                i <= self.families.len(),
                out@ == render_model(self@.take(i as int)),
            decreases self.families.len() - i,
        {
            proof {
                assert(family_wf(self@[i as int]));
                assert(self@[i as int] == self.families@[i as int]@);
            }
            push_family_text(&mut out, &self.families[i]);
            proof {
                assert(self@.take(i as int + 1).drop_last() =~= self@.take(i as int));
            }
            i = i + 1;
        }
        proof {
            assert(self@.take(self@.len() as int) =~= self@);
        }
        out
    }
}

/// The exposition text of the whole registry; what the scrape endpoint serves.
pub fn gather_metrics_output(registry: &Registry) -> (r: String)
    requires
        registry.wf(),
    ensures
        r@ == render_model(registry@),
{
    registry.render()
}

/// Setting a gauge stores exactly the given value: it reads back under the
/// same name and label combination.
pub proof fn lemma_set_reads_back(
    fams: Seq<FamilyModel>,
    name: Seq<char>,
    labels: Seq<Seq<char>>,
    v: GaugeValue,
)
    requires
        registry_wf(fams),
        has_family(fams, name),
        family_arity(fams, name) == labels.len(),
    ensures
        gauge_of(set_model(fams, name, labels, v), name, labels) == Some(v),
{
    let fi = family_index(fams, name);
    let after = set_model(fams, name, labels, v);
    let f = fams[fi];
    let g = set_entry_model(f, labels, v);
    assert(forall|k: int| 0 <= k < after.len() ==> after[k].name == fams[k].name);
    lemma_family_index_unique(after, name, fi);
    if has_entry(f, labels) {
        let ei = entry_index(f, labels);
        assert(g.entries[ei].labels == labels);
        assert forall|j: int| 0 <= j < g.entries.len() && j != ei implies g.entries[j].labels
            != labels by {
            assert(g.entries[j] == f.entries[j]);
            assert(f.entries[ei].labels == labels);
        }
        lemma_entry_at(g, labels, ei);
    } else {
        let ei = g.entries.len() - 1;
        assert(g.entries[ei].labels == labels);
        assert forall|j: int| 0 <= j < g.entries.len() && j != ei implies g.entries[j].labels
            != labels by {
            assert(g.entries[j] == f.entries[j]);
        }
        lemma_entry_at(g, labels, ei);
    }
}

/// Helper: a position whose labels match, when no other matches, is the one
/// `entry_index` finds.
proof fn lemma_entry_at(g: FamilyModel, labels: Seq<Seq<char>>, i: int)
    requires
        0 <= i < g.entries.len(),
        g.entries[i].labels == labels,
        forall|j: int| 0 <= j < g.entries.len() && j != i ==> g.entries[j].labels != labels,
    ensures
        has_entry(g, labels),
        entry_index(g, labels) == i,
{
    assert(has_entry(g, labels));
    let k = entry_index(g, labels);
    if k != i {
        assert(g.entries[k].labels != labels);
    }
}

/// Setting one gauge disturbs no other: every other name or label
/// combination reads exactly what it read before.
pub proof fn lemma_set_preserves_others(
    fams: Seq<FamilyModel>,
    name: Seq<char>,
    labels: Seq<Seq<char>>,
    v: GaugeValue,
    other_name: Seq<char>,
    other_labels: Seq<Seq<char>>,
)
    requires
        registry_wf(fams),
        other_name != name || other_labels != labels,
    ensures
        gauge_of(set_model(fams, name, labels, v), other_name, other_labels) == gauge_of(
            fams,
            other_name,
            other_labels,
        ),
{
    if has_family(fams, name) {
        let fi = family_index(fams, name);
        let after = set_model(fams, name, labels, v);
        let f = fams[fi];
        let g = set_entry_model(f, labels, v);
        assert(after =~= fams.update(fi, g));
        assert(forall|k: int| 0 <= k < after.len() ==> after[k].name == fams[k].name);
        if has_family(fams, other_name) {
            let oi = family_index(fams, other_name);
            lemma_family_index_unique(fams, other_name, oi);
            assert(after[oi].name == other_name);
            lemma_family_index_unique(after, other_name, oi);
            if oi != fi {
                assert(after[oi] == fams[oi]);
            } else {
                assert(other_name == name);
                assert(other_labels != labels);
                if has_entry(f, other_labels) {
                    let oe = entry_index(f, other_labels);
                    assert(g.entries[oe].labels == other_labels);
                    assert forall|j: int|
                        0 <= j < g.entries.len() && j != oe implies g.entries[j].labels
                        != other_labels by {
                        if has_entry(f, labels) && j == entry_index(f, labels) {
                        } else if j < f.entries.len() {
                            assert(g.entries[j] == f.entries[j]);
                        }
                    }
                    assert(has_entry(g, other_labels));
                    let k = entry_index(g, other_labels);
                    if k != oe {
                        assert(g.entries[k].labels != other_labels);
                    }
                    assert(g.entries[oe].value == f.entries[oe].value);
                } else {
                    assert(!has_entry(g, other_labels)) by {
                        if has_entry(g, other_labels) {
                            let k = entry_index(g, other_labels);
                            if has_entry(f, labels) {
                                assert(f.entries[k].labels == other_labels);
                            } else if k < f.entries.len() {
                                assert(f.entries[k].labels == other_labels);
                            } else {
                                assert(g.entries[k].labels == labels);
                            }
                        }
                    }
                }
            }
        } else {
            assert(!has_family(after, other_name)) by {
                if has_family(after, other_name) {
                    let k = family_index(after, other_name);
                    assert(after[k].name == other_name);
                    assert(fams[k].name == other_name);
                }
            }
        }
    }
}

/// Label cardinality only grows: a set never removes an entry, and a set for
/// a fresh combination appends exactly one.
pub proof fn lemma_cardinality_grows(
    fams: Seq<FamilyModel>,
    name: Seq<char>,
    labels: Seq<Seq<char>>,
    v: GaugeValue,
    other_name: Seq<char>,
    other_labels: Seq<Seq<char>>,
)
    requires
        registry_wf(fams),
        gauge_of(fams, other_name, other_labels) is Some,
    ensures
        gauge_of(set_model(fams, name, labels, v), other_name, other_labels) is Some,
{
    if other_name == name && other_labels == labels {
        if has_family(fams, name) {
            assert(family_arity(fams, name) == labels.len()) by {
                let fi = family_index(fams, name);
                let oe = entry_index(fams[fi], labels);
                assert(fams[fi].entries[oe].labels.len() == fams[fi].label_names.len());
            }
            lemma_set_reads_back(fams, name, labels, v);
        }
    } else {
        lemma_set_preserves_others(fams, name, labels, v, other_name, other_labels);
    }
}

} // verus!
