//! The changelog model: changes, releases and the changelog that owns them.

use crate::text::{
    chars_of, eq_ignoring_case, fold_case, replace_all, replaced, same_ignoring_case, string_of,
};
use crate::date::{shown_date, Date, DateModel};
use crate::grouping::{
    as_ints, category_at, category_of_code, group_by_category, group_positions, models,
};
use crate::links::{has_link_line, link_order, link_order_of, places};
use crate::version::{shown_version, Version};
use crate::wrap::{wrap_indented, wrapped};
use vstd::prelude::*;

verus! {

/// The six kinds of change, in the order in which a release lists them.
#[derive(Debug, Clone, Copy, PartialEq, Eq, Structural)]
pub enum Category {
    Added,
    Changed,
    Deprecated,
    Removed,
    Fixed,
    Security,
}

/// The name of a category as a release's sub-heading shows it.
pub open spec fn category_name(c: Category) -> Seq<char> {
    match c {
        Category::Added => "Added"@,
        Category::Changed => "Changed"@,
        Category::Deprecated => "Deprecated"@,
        Category::Removed => "Removed"@,
        Category::Fixed => "Fixed"@,
        Category::Security => "Security"@,
    }
}

/// The category that a label names, whatever the case of its letters.
pub open spec fn category_of_label(label: Seq<char>) -> Option<Category> {
    if same_ignoring_case(label, "Added"@) {
        Some(Category::Added)
    } else if same_ignoring_case(label, "Changed"@) {
        Some(Category::Changed)
    } else if same_ignoring_case(label, "Deprecated"@) {
        Some(Category::Deprecated)
    } else if same_ignoring_case(label, "Removed"@) {
        Some(Category::Removed)
    } else if same_ignoring_case(label, "Fixed"@) {
        Some(Category::Fixed)
    } else if same_ignoring_case(label, "Security"@) {
        Some(Category::Security)
    } else {
        None
    }
}

impl Category {
    /// The category that `label` names, whatever the case of its letters.
    pub fn from_label(label: &str) -> (r: Option<Category>)
        ensures
            r == category_of_label(label@),
    {
        let l = chars_of(label);
        if eq_ignoring_case(&l, &chars_of("Added")) {
            Some(Category::Added)
        } else if eq_ignoring_case(&l, &chars_of("Changed")) {
            Some(Category::Changed)
        } else if eq_ignoring_case(&l, &chars_of("Deprecated")) {
            Some(Category::Deprecated)
        } else if eq_ignoring_case(&l, &chars_of("Removed")) {
            Some(Category::Removed)
        } else if eq_ignoring_case(&l, &chars_of("Fixed")) {
            Some(Category::Fixed)
        } else if eq_ignoring_case(&l, &chars_of("Security")) {
            Some(Category::Security)
        } else {
            None
        }
    }

    pub fn name(&self) -> (r: &'static str)
        ensures
            r@ == category_name(*self),
    {
        match self {
            Category::Added => "Added",
            Category::Changed => "Changed",
            Category::Deprecated => "Deprecated",
            Category::Removed => "Removed",
            Category::Fixed => "Fixed",
            Category::Security => "Security",
        }
    }
}

/// A label names a category exactly when it is that category's name in
/// some letter case: no label names two categories, and a label that is no
/// category's name names none.
pub proof fn lemma_label_names_category(label: Seq<char>, c: Category)
    ensures
        category_of_label(label) == Some(c) <==> same_ignoring_case(label, category_name(c)),
{
    reveal_strlit("Added");
    reveal_strlit("Changed");
    reveal_strlit("Deprecated");
    reveal_strlit("Removed");
    reveal_strlit("Fixed");
    reveal_strlit("Security");
    if same_ignoring_case(label, category_name(c)) {
        let name = category_name(c);
        assert(fold_case(label[0]) == fold_case(name[0]));
        assert(fold_case(label[2]) == fold_case(name[2]));
    }
}

/// One entry of a release: a description under one of the six categories.
#[derive(Debug, PartialEq)]
pub enum Change {
    Added(String),
    Changed(String),
    Deprecated(String),
    Removed(String),
    Fixed(String),
    Security(String),
}

/// What a change says: its category and the text of its description.
pub struct ChangeModel {
    pub category: Category,
    pub description: Seq<char>,
}

impl View for Change {
    type V = ChangeModel;

    open spec fn view(&self) -> ChangeModel {
        match *self {
            Change::Added(d) => ChangeModel { category: Category::Added, description: d@ },
            Change::Changed(d) => ChangeModel { category: Category::Changed, description: d@ },
            Change::Deprecated(d) => ChangeModel {
                category: Category::Deprecated,
                description: d@,
            },
            Change::Removed(d) => ChangeModel { category: Category::Removed, description: d@ },
            Change::Fixed(d) => ChangeModel { category: Category::Fixed, description: d@ },
            Change::Security(d) => ChangeModel { category: Category::Security, description: d@ },
        }
    }
}

impl Clone for Change {
    fn clone(&self) -> (r: Self)
        ensures
            r == *self,
    {
        match self {
            Change::Added(d) => Change::Added(d.clone()),
            Change::Changed(d) => Change::Changed(d.clone()),
            Change::Deprecated(d) => Change::Deprecated(d.clone()),
            Change::Removed(d) => Change::Removed(d.clone()),
            Change::Fixed(d) => Change::Fixed(d.clone()),
            Change::Security(d) => Change::Security(d.clone()),
        }
    }
}

/// The change of category `c` that carries the string `description`.
pub open spec fn change_of(c: Category, description: String) -> Change {
    match c {
        Category::Added => Change::Added(description),
        Category::Changed => Change::Changed(description),
        Category::Deprecated => Change::Deprecated(description),
        Category::Removed => Change::Removed(description),
        Category::Fixed => Change::Fixed(description),
        Category::Security => Change::Security(description),
    }
}

#[derive(Debug)]
pub enum ChangeError {
    /// The label, kept as it was given, names none of the six categories.
    InvalidChangeType(String),
}

impl ChangeError {
    pub open spec fn label(&self) -> Seq<char> {
        match *self {
            ChangeError::InvalidChangeType(l) => l@,
        }
    }

    /// The error in words.
    pub fn message(&self) -> (r: String)
        ensures
            r@ == "invalid change type specified: "@ + self.label(),
    {
        let mut out = String::new();
        out.append("invalid change type specified: ");
        match self {
            ChangeError::InvalidChangeType(l) => out.append(l.as_str()),
        }
        out
    }
}

/// The text of a change as one list item: the description on one line,
/// broken at `wrap` columns where a width is given.
pub open spec fn rendered_change(m: ChangeModel, wrap: Option<usize>) -> Seq<char> {
    let flat = replaced(m.description, "\n"@, " "@);
    let body = match wrap {
        Some(width) => wrapped(flat, width),
        None => flat,
    };
    "- "@ + body + "\n"@
}

impl Change {
    /// The change of the category that `change_type` names, in any letter
    /// case, with `description` as it is; an error that carries the label
    /// where it names no category.
    pub fn new(change_type: &str, description: String) -> (r: Result<Change, ChangeError>)
        ensures
            match category_of_label(change_type@) {
                Some(c) => r == Ok::<Change, ChangeError>(change_of(c, description)),
                None => r is Err && r->Err_0.label() == change_type@,
            },
    {
        match Category::from_label(change_type) {
            Some(Category::Added) => Ok(Change::Added(description)),
            Some(Category::Changed) => Ok(Change::Changed(description)),
            Some(Category::Deprecated) => Ok(Change::Deprecated(description)),
            Some(Category::Removed) => Ok(Change::Removed(description)),
            Some(Category::Fixed) => Ok(Change::Fixed(description)),
            Some(Category::Security) => Ok(Change::Security(description)),
            None => Err(ChangeError::InvalidChangeType(change_type.to_owned())),
        }
    }

    pub fn category(&self) -> (r: Category)
        ensures
            r == self@.category,
    {
        match self {
            Change::Added(_) => Category::Added,
            Change::Changed(_) => Category::Changed,
            Change::Deprecated(_) => Category::Deprecated,
            Change::Removed(_) => Category::Removed,
            Change::Fixed(_) => Category::Fixed,
            Change::Security(_) => Category::Security,
        }
    }

    pub fn description(&self) -> (r: &String)
        ensures
            r@ == self@.description,
            *self == change_of(self@.category, *r),
    {
        match self {
            Change::Added(d) => d,
            Change::Changed(d) => d,
            Change::Deprecated(d) => d,
            Change::Removed(d) => d,
            Change::Fixed(d) => d,
            Change::Security(d) => d,
        }
    }

    /// The change as a list item of the Markdown form.
    pub fn render(&self, wrap: Option<usize>) -> (r: String)
        ensures
            r@ == rendered_change(self@, wrap),
    {
        let description = chars_of(self.description().as_str());
        let flat = string_of(&replace_all(&description, &chars_of("\n"), &chars_of(" ")));
        let body = match wrap {
            Some(width) => wrap_indented(flat.as_str(), width),
            None => flat,
        };
        let mut out = String::new();
        out.append("- ");
        out.append(body.as_str());
        out.append("\n");
        out
    }
}

/// The models of a list that grew by one change.
pub proof fn lemma_models_push(changes: Seq<Change>, c: Change)
    ensures
        models(changes.push(c)) == models(changes).push(c@),
{
    assert(models(changes.push(c)) =~= models(changes).push(c@));
}

/// A copy of a list of changes.
pub fn copy_changes(changes: &Vec<Change>) -> (r: Vec<Change>)
    ensures
        r@ == changes@,
{
    let mut out: Vec<Change> = Vec::new();
    let mut i: usize = 0;
    while i < changes.len()
        invariant
            i <= changes.len(),
            out@ =~= changes@.take(i as int),
        decreases changes.len() - i,
    {
        out.push(changes[i].clone());
        i += 1;
    }
    assert(changes@.take(changes@.len() as int) =~= changes@);
    out
}

/// The text of an optional string.
pub open spec fn text_of(s: Option<String>) -> Option<Seq<char>> {
    match s {
        Some(t) => Some(t@),
        None => None,
    }
}

/// The text of an optional version.
pub open spec fn version_of(v: Option<Version>) -> Option<Seq<char>> {
    match v {
        Some(x) => Some(x@),
        None => None,
    }
}

/// The model of an optional date.
pub open spec fn date_of(d: Option<Date>) -> Option<DateModel> {
    match d {
        Some(x) => Some(x@),
        None => None,
    }
}

/// A release, or the changes not yet released where it has no version.
#[derive(Debug)]
pub struct Release {
    version: Option<Version>,
    link: Option<String>,
    date: Option<Date>,
    changes: Vec<Change>,
    yanked: bool,
    separator: String,
    wrap: Option<usize>,
}

/// What a release holds.
pub struct ReleaseModel {
    /// The text that the version was read from.
    pub version: Option<Seq<char>>,
    pub link: Option<Seq<char>>,
    pub date: Option<DateModel>,
    /// The changes in the order of the document.
    pub changes: Seq<ChangeModel>,
    pub yanked: bool,
    /// What stands between version and date in the heading.
    pub separator: Seq<char>,
    /// The column at which the descriptions are broken, if they are.
    pub wrap: Option<usize>,
}

impl View for Release {
    type V = ReleaseModel;

    closed spec fn view(&self) -> ReleaseModel {
        ReleaseModel {
            version: version_of(self.version),
            link: text_of(self.link),
            date: date_of(self.date),
            changes: models(self.changes@),
            yanked: self.yanked,
            separator: self.separator@,
            wrap: self.wrap,
        }
    }
}

/// The heading of a release: version and date where it has both, else the
/// heading of the changes not yet released.
pub open spec fn rendered_heading(m: ReleaseModel) -> Seq<char> {
    "## "@ + (match (m.version, m.date) {
        (Some(v), Some(d)) => if m.yanked {
            shown_version(v) + " "@ + m.separator + " "@ + shown_date(d) + " [YANKED]\n"@
        } else {
            "["@ + shown_version(v) + "] "@ + m.separator + " "@ + shown_date(d) + "\n"@
        },
        _ => "[Unreleased]\n"@ + (if m.changes.len() == 0 {
            "\n"@
        } else {
            Seq::<char>::empty()
        }),
    })
}

/// The list items of the changes at the places `at[j..]`.
pub open spec fn rendered_items(
    changes: Seq<ChangeModel>,
    at: Seq<int>,
    wrap: Option<usize>,
    j: int,
) -> Seq<char>
    decreases at.len() - j,
{
    if j < 0 || j >= at.len() {
        Seq::empty()
    } else {
        rendered_change(changes[at[j]], wrap) + rendered_items(changes, at, wrap, j + 1)
    }
}

/// The section of one category: nothing where no change has it, else its
/// sub-heading, its changes in the order of the document, and an empty line.
pub open spec fn rendered_group(
    changes: Seq<ChangeModel>,
    c: Category,
    wrap: Option<usize>,
) -> Seq<char> {
    let at = group_positions(changes, c);
    if at.len() == 0 {
        Seq::empty()
    } else {
        "### "@ + category_name(c) + "\n"@ + rendered_items(changes, at, wrap, 0) + "\n"@
    }
}

/// The sections of the categories from the `k`-th on, in their order.
pub open spec fn rendered_groups(changes: Seq<ChangeModel>, wrap: Option<usize>, k: int) -> Seq<
    char,
>
    decreases 6 - k,
{
    if k < 0 || k >= 6 {
        Seq::empty()
    } else {
        rendered_group(changes, category_at(k), wrap) + rendered_groups(changes, wrap, k + 1)
    }
}

/// A release in the Markdown form: its heading, then its changes by category.
pub open spec fn rendered_release(m: ReleaseModel) -> Seq<char> {
    rendered_heading(m) + rendered_groups(m.changes, m.wrap, 0)
}

/// A category that no change has leaves nothing in the text of a release's
/// changes, and one that some change has leaves its sub-heading first.
pub proof fn lemma_empty_category_is_left_out(
    changes: Seq<ChangeModel>,
    c: Category,
    wrap: Option<usize>,
)
    ensures
        (forall|i: int| 0 <= i < changes.len() ==> (#[trigger] changes[i]).category != c)
            ==> rendered_group(changes, c, wrap) == Seq::<char>::empty(),
        (exists|i: int| 0 <= i < changes.len() && (#[trigger] changes[i]).category == c)
            ==> rendered_group(changes, c, wrap) == "### "@ + category_name(c) + "\n"@
            + rendered_items(changes, group_positions(changes, c), wrap, 0) + "\n"@,
{
    crate::grouping::lemma_empty_group(changes, c);
}

impl Release {
    pub fn version(&self) -> (r: &Option<Version>)
        ensures
            version_of(*r) == self@.version,
    {
        &self.version
    }

    pub fn link(&self) -> (r: &Option<String>)
        ensures
            text_of(*r) == self@.link,
    {
        &self.link
    }

    pub fn date(&self) -> (r: &Option<Date>)
        ensures
            date_of(*r) == self@.date,
    {
        &self.date
    }

    pub fn changes(&self) -> (r: &Vec<Change>)
        ensures
            models(r@) == self@.changes,
    {
        &self.changes
    }

    pub fn yanked(&self) -> (r: &bool)
        ensures
            *r == self@.yanked,
    {
        &self.yanked
    }

    pub fn separator(&self) -> (r: &String)
        ensures
            r@ == self@.separator,
    {
        &self.separator
    }

    pub fn wrap(&self) -> (r: &Option<usize>)
        ensures
            *r == self@.wrap,
    {
        &self.wrap
    }

    pub fn version_mut(&mut self) -> (r: &mut Option<Version>)
        ensures
            version_of(*r) == old(self)@.version,
            final(self)@ == (ReleaseModel { version: version_of(*final(r)), ..old(self)@ }),
    {
        &mut self.version
    }

    pub fn set_version(&mut self, version: Version) -> (r: &mut Self)
        ensures
            r@ == (ReleaseModel { version: Some(version@), ..old(self)@ }),
            *final(self) == *final(r),
    {
        self.version = Some(version);
        self
    }

    pub fn link_mut(&mut self) -> (r: &mut Option<String>)
        ensures
            text_of(*r) == old(self)@.link,
            final(self)@ == (ReleaseModel { link: text_of(*final(r)), ..old(self)@ }),
    {
        &mut self.link
    }

    pub fn set_link(&mut self, link: String) -> (r: &mut Self)
        ensures
            r@ == (ReleaseModel { link: Some(link@), ..old(self)@ }),
            *final(self) == *final(r),
    {
        self.link = Some(link);
        self
    }

    pub fn date_mut(&mut self) -> (r: &mut Option<Date>)
        ensures
            date_of(*r) == old(self)@.date,
            final(self)@ == (ReleaseModel { date: date_of(*final(r)), ..old(self)@ }),
    {
        &mut self.date
    }

    pub fn set_date(&mut self, date: Date) -> (r: &mut Self)
        ensures
            r@ == (ReleaseModel { date: Some(date@), ..old(self)@ }),
            *final(self) == *final(r),
    {
        self.date = Some(date);
        self
    }

    pub fn changes_mut(&mut self) -> (r: &mut Vec<Change>)
        ensures
            models(r@) == old(self)@.changes,
            final(self)@ == (ReleaseModel { changes: models(final(r)@), ..old(self)@ }),
    {
        &mut self.changes
    }

    pub fn set_changes(&mut self, changes: Vec<Change>) -> (r: &mut Self)
        ensures
            r@ == (ReleaseModel { changes: models(changes@), ..old(self)@ }),
            *final(self) == *final(r),
    {
        self.changes = changes;
        self
    }

    /// Sets whether the release is withdrawn. Withdrawing a release that was
    /// not withdrawn takes its link away; nothing else touches the link.
    pub fn yank(&mut self, yanked: bool)
        ensures
            final(self)@ == (ReleaseModel {
                yanked,
                link: if !old(self)@.yanked && yanked {
                    None
                } else {
                    old(self)@.link
                },
                ..old(self)@
            }),
    {
        if !self.yanked && yanked {
            self.link = None;
        }
        self.yanked = yanked;
    }

    /// The release in the Markdown form.
    pub fn render(&self) -> (r: String)
        ensures
            r@ == rendered_release(self@),
    {
        let mut out = String::new();
        out.append("## ");
        match (&self.version, &self.date) {
            (Some(version), Some(date)) => {
                let v = version.text();
                let d = date.text();
                if self.yanked {
                    out.append(v.as_str());
                    out.append(" ");
                    out.append(self.separator.as_str());
                    out.append(" ");
                    out.append(d.as_str());
                    out.append(" [YANKED]\n");
                } else {
                    out.append("[");
                    out.append(v.as_str());
                    out.append("] ");
                    out.append(self.separator.as_str());
                    out.append(" ");
                    out.append(d.as_str());
                    out.append("\n");
                }
            },
            _ => {
                out.append("[Unreleased]\n");
                if self.changes.len() == 0 {
                    out.append("\n");
                }
            },
        }
        assert(out@ =~= rendered_heading(self@));
        let ghost heading = out@;
        let ghost cm = models(self.changes@);
        let groups = group_by_category(&self.changes);
        let mut k: usize = 0;
        while k < 6
            invariant
                k <= 6,
                groups.len() == 6,
                cm == models(self.changes@),
                forall|k: int|
                    0 <= k < 6 ==> (#[trigger] groups[k]).0 == k && as_ints(groups[k].1@)
                        == group_positions(cm, category_at(k)),
                out@ + rendered_groups(cm, self.wrap, k as int) =~= heading + rendered_groups(
                    cm,
                    self.wrap,
                    0,
                ),
            decreases 6 - k,
        {
            let at = &groups[k].1;
            let ghost places = group_positions(cm, category_at(k as int));
            assert(as_ints(at@) == places);
            if at.len() > 0 {
                let ghost before = out@;
                out.append("### ");
                out.append(category_of_code(groups[k].0).name());
                out.append("\n");
                let ghost start = out@;
                let mut j: usize = 0;
                while j < at.len()
                    invariant
                        j <= at.len(),
                        cm == models(self.changes@),
                        as_ints(at@) == places,
                        places == group_positions(cm, category_at(k as int)),
                        out@ + rendered_items(cm, places, self.wrap, j as int) =~= start
                            + rendered_items(cm, places, self.wrap, 0),
                    decreases at.len() - j,
                {
                    proof {
                        crate::grouping::lemma_group_is_stable(cm, category_at(k as int));
                        assert(as_ints(at@)[j as int] == at@[j as int] as int);
                    }
                    let change = &self.changes[at[j]];
                    assert(cm[at@[j as int] as int] == change@);
                    let item = change.render(self.wrap);
                    out.append(item.as_str());
                    j += 1;
                }
                out.append("\n");
                assert(out@ =~= before + rendered_group(cm, category_at(k as int), self.wrap));
            } else {
                assert(places.len() == 0);
            }
            k += 1;
        }
        out
    }
}

impl Clone for Release {
    fn clone(&self) -> (r: Self)
        ensures
            r@ == self@,
    {
        Release {
            version: match &self.version {
                Some(v) => Some(v.clone()),
                None => None,
            },
            link: match &self.link {
                Some(l) => Some(l.clone()),
                None => None,
            },
            date: self.date,
            changes: copy_changes(&self.changes),
            yanked: self.yanked,
            separator: self.separator.clone(),
            wrap: self.wrap,
        }
    }
}

/// A release before anything was said of it: no version, link or date, no
/// changes, not withdrawn, a hyphen between version and date, descriptions
/// broken at column 77.
pub open spec fn blank_release() -> ReleaseModel {
    ReleaseModel {
        version: None,
        link: None,
        date: None,
        changes: Seq::empty(),
        yanked: false,
        separator: "-"@,
        wrap: Some(77usize),
    }
}

/// The making of a release field by field: what was not set is filled in
/// when the release is built.
#[derive(Debug)]
pub struct ReleaseBuilder {
    version: Option<Version>,
    link: Option<String>,
    date: Option<Date>,
    changes: Option<Vec<Change>>,
    yanked: Option<bool>,
    separator: Option<String>,
    wrap: Option<Option<usize>>,
}

impl View for ReleaseBuilder {
    type V = ReleaseModel;

    /// The release that `build` would make.
    closed spec fn view(&self) -> ReleaseModel {
        ReleaseModel {
            version: version_of(self.version),
            link: text_of(self.link),
            date: date_of(self.date),
            changes: match self.changes {
                Some(c) => models(c@),
                None => Seq::empty(),
            },
            yanked: match self.yanked {
                Some(y) => y,
                None => false,
            },
            separator: match self.separator {
                Some(s) => s@,
                None => "-"@,
            },
            wrap: match self.wrap {
                Some(w) => w,
                None => Some(77usize),
            },
        }
    }
}

impl Default for ReleaseBuilder {
    fn default() -> (r: Self)
        ensures
            r@ == blank_release(),
    {
        ReleaseBuilder {
            version: None,
            link: None,
            date: None,
            changes: None,
            yanked: None,
            separator: None,
            wrap: None,
        }
    }
}

impl ReleaseBuilder {
    /// What stands between version and date where nothing else was asked for.
    pub fn default_separator(&self) -> (r: String)
        ensures
            r@ == "-"@,
    {
        "-".to_owned()
    }

    pub fn version(&mut self, value: Version) -> (r: &mut Self)
        ensures
            r@ == (ReleaseModel { version: Some(value@), ..old(self)@ }),
            *final(self) == *final(r),
    {
        self.version = Some(value);
        self
    }

    pub fn link(&mut self, value: String) -> (r: &mut Self)
        ensures
            r@ == (ReleaseModel { link: Some(value@), ..old(self)@ }),
            *final(self) == *final(r),
    {
        self.link = Some(value);
        self
    }

    pub fn date(&mut self, value: Date) -> (r: &mut Self)
        ensures
            r@ == (ReleaseModel { date: Some(value@), ..old(self)@ }),
            *final(self) == *final(r),
    {
        self.date = Some(value);
        self
    }

    pub fn changes(&mut self, value: Vec<Change>) -> (r: &mut Self)
        ensures
            r@ == (ReleaseModel { changes: models(value@), ..old(self)@ }),
            *final(self) == *final(r),
    {
        self.changes = Some(value);
        self
    }

    pub fn yanked(&mut self, value: bool) -> (r: &mut Self)
        ensures
            r@ == (ReleaseModel { yanked: value, ..old(self)@ }),
            *final(self) == *final(r),
    {
        self.yanked = Some(value);
        self
    }

    pub fn separator(&mut self, value: String) -> (r: &mut Self)
        ensures
            r@ == (ReleaseModel { separator: value@, ..old(self)@ }),
            *final(self) == *final(r),
    {
        self.separator = Some(value);
        self
    }

    pub fn wrap(&mut self, value: Option<usize>) -> (r: &mut Self)
        ensures
            r@ == (ReleaseModel { wrap: value, ..old(self)@ }),
            *final(self) == *final(r),
    {
        self.wrap = Some(value);
        self
    }

    /// The release as it was set, with what was left out filled in. No field
    /// of a release has to be set, so this never fails.
    pub fn build(&self) -> (r: Result<Release, String>)
        ensures
            r is Ok,
            r->Ok_0@ == self@,
    {
        let release = Release {
            version: match &self.version {
                Some(v) => Some(v.clone()),
                None => None,
            },
            link: match &self.link {
                Some(l) => Some(l.clone()),
                None => None,
            },
            date: self.date,
            changes: match &self.changes {
                Some(c) => copy_changes(c),
                None => Vec::new(),
            },
            yanked: match self.yanked {
                Some(y) => y,
                None => false,
            },
            separator: match &self.separator {
                Some(s) => s.clone(),
                None => self.default_separator(),
            },
            wrap: match self.wrap {
                Some(w) => w,
                None => Some(77),
            },
        };
        assert(release@.changes =~= self@.changes);
        Ok(release)
    }
}

/// The models of a list of releases.
pub open spec fn release_models(releases: Seq<Release>) -> Seq<ReleaseModel> {
    releases.map_values(|r: Release| r@)
}

/// The models of a list that grew by one release.
pub proof fn lemma_release_models_push(releases: Seq<Release>, r: Release)
    ensures
        release_models(releases.push(r)) == release_models(releases).push(r@),
{
    assert(release_models(releases.push(r)) =~= release_models(releases).push(r@));
}

/// The models of a list in which one release was replaced.
pub proof fn lemma_release_models_update(releases: Seq<Release>, i: int, r: Release)
    requires
        0 <= i < releases.len(),
    ensures
        release_models(releases.update(i, r)) == release_models(releases).update(i, r@),
{
    assert(release_models(releases.update(i, r)) =~= release_models(releases).update(i, r@));
}

/// A copy of a list of releases.
pub fn copy_releases(releases: &Vec<Release>) -> (r: Vec<Release>)
    ensures
        release_models(r@) == release_models(releases@),
{
    let mut out: Vec<Release> = Vec::new();
    let mut i: usize = 0;
    while i < releases.len()
        invariant
            i <= releases.len(),
            release_models(out@) =~= release_models(releases@).take(i as int),
        decreases releases.len() - i,
    {
        let copy = releases[i].clone();
        proof {
            lemma_release_models_push(out@, copy);
        }
        out.push(copy);
        i += 1;
    }
    assert(release_models(releases@).take(releases@.len() as int) =~= release_models(releases@));
    out
}

/// A changelog: a title, a description, and its releases in the order of
/// the document.
#[derive(Debug)]
pub struct Changelog {
    title: String,
    description: String,
    releases: Vec<Release>,
}

/// What a changelog holds.
pub struct ChangelogModel {
    pub title: Seq<char>,
    pub description: Seq<char>,
    pub releases: Seq<ReleaseModel>,
}

impl View for Changelog {
    type V = ChangelogModel;

    closed spec fn view(&self) -> ChangelogModel {
        ChangelogModel {
            title: self.title@,
            description: self.description@,
            releases: release_models(self.releases@),
        }
    }
}

impl Clone for Changelog {
    fn clone(&self) -> (r: Self)
        ensures
            r@ == self@,
    {
        Changelog {
            title: self.title.clone(),
            description: self.description.clone(),
            releases: copy_releases(&self.releases),
        }
    }
}

/// What a changelog's builder holds: title and description as far as they
/// were set, and the releases.
pub struct ChangelogDraft {
    pub title: Option<Seq<char>>,
    pub description: Option<Seq<char>>,
    pub releases: Seq<ReleaseModel>,
}

/// The making of a changelog field by field. Title and description have to
/// be set before it is built.
#[derive(Debug)]
pub struct ChangelogBuilder {
    title: Option<String>,
    description: Option<String>,
    releases: Option<Vec<Release>>,
}

impl View for ChangelogBuilder {
    type V = ChangelogDraft;

    closed spec fn view(&self) -> ChangelogDraft {
        ChangelogDraft {
            title: text_of(self.title),
            description: text_of(self.description),
            releases: match self.releases {
                Some(r) => release_models(r@),
                None => Seq::empty(),
            },
        }
    }
}

impl Default for ChangelogBuilder {
    fn default() -> (r: Self)
        ensures
            r@ == (ChangelogDraft { title: None, description: None, releases: Seq::empty() }),
    {
        ChangelogBuilder { title: None, description: None, releases: None }
    }
}

impl ChangelogBuilder {
    pub fn title(&mut self, value: String) -> (r: &mut Self)
        ensures
            r@ == (ChangelogDraft { title: Some(value@), ..old(self)@ }),
            *final(self) == *final(r),
    {
        self.title = Some(value);
        self
    }

    pub fn description(&mut self, value: String) -> (r: &mut Self)
        ensures
            r@ == (ChangelogDraft { description: Some(value@), ..old(self)@ }),
            *final(self) == *final(r),
    {
        self.description = Some(value);
        self
    }

    pub fn releases(&mut self, value: Vec<Release>) -> (r: &mut Self)
        ensures
            r@ == (ChangelogDraft { releases: release_models(value@), ..old(self)@ }),
            *final(self) == *final(r),
    {
        self.releases = Some(value);
        self
    }

    /// The changelog as it was set; an error that names the field where
    /// the title, or else the description, was not set.
    pub fn build(&self) -> (r: Result<Changelog, String>)
        ensures
            match (self@.title, self@.description) {
                (Some(title), Some(description)) => r is Ok && r->Ok_0@ == (ChangelogModel {
                    title,
                    description,
                    releases: self@.releases,
                }),
                (None, _) => r is Err && r->Err_0@ == "`title` must be initialized"@,
                (Some(_), None) => r is Err && r->Err_0@ == "`description` must be initialized"@,
            },
    {
        let title = match &self.title {
            Some(t) => t.clone(),
            None => {
                return Err("`title` must be initialized".to_owned());
            },
        };
        let description = match &self.description {
            Some(d) => d.clone(),
            None => {
                return Err("`description` must be initialized".to_owned());
            },
        };
        let releases = match &self.releases {
            Some(r) => copy_releases(r),
            None => Vec::new(),
        };
        assert(release_models(releases@) =~= self@.releases);
        Ok(Changelog { title, description, releases })
    }
}

/// The changes of the releases without a version from the `i`-th release on,
/// in the order of the document.
pub open spec fn unreleased_from(releases: Seq<ReleaseModel>, i: int) -> Seq<ChangeModel>
    decreases releases.len() - i,
{
    if i < 0 || i >= releases.len() {
        Seq::empty()
    } else if releases[i].version is None {
        releases[i].changes + unreleased_from(releases, i + 1)
    } else {
        unreleased_from(releases, i + 1)
    }
}

/// The place at or after `i` of the first release without a version.
pub open spec fn first_unreleased_from(releases: Seq<ReleaseModel>, i: int) -> Option<int>
    decreases releases.len() - i,
{
    if i < 0 || i >= releases.len() {
        None
    } else if releases[i].version is None {
        Some(i)
    } else {
        first_unreleased_from(releases, i + 1)
    }
}

/// The place at or after `i` of the first release whose version is the one
/// written as `version`.
pub open spec fn first_with_version_from(
    releases: Seq<ReleaseModel>,
    version: Seq<char>,
    i: int,
) -> Option<int>
    decreases releases.len() - i,
{
    if i < 0 || i >= releases.len() {
        None
    } else if releases[i].version is Some && crate::version::version_same(
        releases[i].version->0,
        version,
    ) {
        Some(i)
    } else {
        first_with_version_from(releases, version, i + 1)
    }
}

impl Changelog {
    pub fn title(&self) -> (r: &String)
        ensures
            r@ == self@.title,
    {
        &self.title
    }

    pub fn description(&self) -> (r: &String)
        ensures
            r@ == self@.description,
    {
        &self.description
    }

    pub fn releases(&self) -> (r: &Vec<Release>)
        ensures
            release_models(r@) == self@.releases,
    {
        &self.releases
    }

    /// The changes of all releases without a version, in the order of the
    /// document.
    pub fn unreleased_changes(&self) -> (r: Vec<Change>)
        ensures
            models(r@) == unreleased_from(self@.releases, 0),
    {
        let ghost rm = release_models(self.releases@);
        let mut out: Vec<Change> = Vec::new();
        let mut i: usize = 0;
        while i < self.releases.len()
            invariant
                i <= self.releases.len(),
                rm == release_models(self.releases@),
                models(out@) + unreleased_from(rm, i as int) =~= unreleased_from(rm, 0),
            decreases self.releases.len() - i,
        {
            let release = &self.releases[i];
            assert(rm[i as int] == release@);
            if release.version.is_none() {
                let ghost before = out@;
                let mut j: usize = 0;
                while j < release.changes.len()
                    invariant
                        j <= release.changes.len(),
                        models(out@) =~= models(before) + models(release.changes@).take(j as int),
                    decreases release.changes.len() - j,
                {
                    let copy = release.changes[j].clone();
                    proof {
                        lemma_models_push(out@, copy);
                    }
                    out.push(copy);
                    j += 1;
                }
                assert(models(release.changes@).take(release.changes@.len() as int) =~= models(
                    release.changes@,
                ));
            }
            i += 1;
        }
        out
    }

    /// The first release without a version, to be changed in place.
    pub fn unreleased_mut(&mut self) -> (r: Option<&mut Release>)
        ensures
            match r {
                Some(release) => {
                    let at = first_unreleased_from(old(self)@.releases, 0);
                    &&& at is Some
                    &&& release@ == old(self)@.releases[at->0]
                    &&& final(self)@ == (ChangelogModel {
                        releases: old(self)@.releases.update(at->0, final(release)@),
                        ..old(self)@
                    })
                },
                None => first_unreleased_from(old(self)@.releases, 0) is None && final(self)@
                    == old(self)@,
            },
    {
        let ghost rm = release_models(self.releases@);
        let mut i: usize = 0;
        while i < self.releases.len()
            invariant
                i <= self.releases.len(),
                *self == *old(self),
                rm == release_models(self.releases@),
                first_unreleased_from(rm, i as int) == first_unreleased_from(rm, 0),
            decreases self.releases.len() - i,
        {
            assert(rm[i as int] == self.releases@[i as int]@);
            if self.releases[i].version.is_none() {
                assert forall|r: Release|
                    release_models(#[trigger] self.releases@.update(i as int, r))
                        == rm.update(i as int, r@) by {
                    lemma_release_models_update(self.releases@, i as int, r);
                }
                return Some(&mut self.releases[i]);
            }
            i += 1;
        }
        None
    }

    /// The first release of the given version, to be changed in place.
    pub fn release_mut(&mut self, release: Version) -> (r: Option<&mut Release>)
        ensures
            match r {
                Some(found) => {
                    let at = first_with_version_from(old(self)@.releases, release@, 0);
                    &&& at is Some
                    &&& found@ == old(self)@.releases[at->0]
                    &&& final(self)@ == (ChangelogModel {
                        releases: old(self)@.releases.update(at->0, final(found)@),
                        ..old(self)@
                    })
                },
                None => first_with_version_from(old(self)@.releases, release@, 0) is None
                    && final(self)@ == old(self)@,
            },
    {
        let ghost rm = release_models(self.releases@);
        let mut i: usize = 0;
        while i < self.releases.len()
            invariant
                i <= self.releases.len(),
                *self == *old(self),
                rm == release_models(self.releases@),
                first_with_version_from(rm, release@, i as int) == first_with_version_from(
                    rm,
                    release@,
                    0,
                ),
            decreases self.releases.len() - i,
        {
            assert(rm[i as int] == self.releases@[i as int]@);
            let same = match &self.releases[i].version {
                Some(v) => v.same(&release),
                None => false,
            };
            if same {
                assert forall|r: Release|
                    release_models(#[trigger] self.releases@.update(i as int, r))
                        == rm.update(i as int, r@) by {
                    lemma_release_models_update(self.releases@, i as int, r);
                }
                return Some(&mut self.releases[i]);
            }
            i += 1;
        }
        None
    }
}

/// The releases from the `i`-th on in the Markdown form, one after another.
pub open spec fn rendered_releases(releases: Seq<ReleaseModel>, i: int) -> Seq<char>
    decreases releases.len() - i,
{
    if i < 0 || i >= releases.len() {
        Seq::empty()
    } else {
        rendered_release(releases[i]) + rendered_releases(releases, i + 1)
    }
}

/// The link definition of the changes not yet released: there where the
/// first release has no version but a link.
pub open spec fn rendered_unreleased_link(releases: Seq<ReleaseModel>) -> Seq<char> {
    if releases.len() > 0 && releases[0].version is None && releases[0].link is Some {
        "[Unreleased]: "@ + releases[0].link->0 + "\n"@
    } else {
        Seq::empty()
    }
}

/// The link definition of a release that has a version and a link.
pub open spec fn rendered_link(r: ReleaseModel) -> Seq<char> {
    "["@ + shown_version(r.version->0) + "]: "@ + r.link->0 + "\n"@
}

/// The link definitions of the releases at the places `order[j..]`.
pub open spec fn rendered_links(releases: Seq<ReleaseModel>, order: Seq<int>, j: int) -> Seq<char>
    decreases order.len() - j,
{
    if j < 0 || j >= order.len() {
        Seq::empty()
    } else {
        rendered_link(releases[order[j]]) + rendered_links(releases, order, j + 1)
    }
}

/// A changelog in the Markdown form: the title line, the description as it
/// is, the releases, then the link definitions, that of the changes not yet
/// released first and the others by falling version.
pub open spec fn rendered_changelog(m: ChangelogModel) -> Seq<char> {
    "# "@ + m.title + "\n"@ + m.description + rendered_releases(m.releases, 0)
        + rendered_unreleased_link(m.releases) + rendered_links(
        m.releases,
        link_order(m.releases, m.releases.len() as int),
        0,
    )
}

impl Changelog {
    /// The changelog in the Markdown form.
    pub fn render(&self) -> (r: String)
        ensures
            r@ == rendered_changelog(self@),
    {
        let ghost rm = release_models(self.releases@);
        let mut out = String::new();
        out.append("# ");
        out.append(self.title.as_str());
        out.append("\n");
        out.append(self.description.as_str());
        let ghost head = out@;
        let mut i: usize = 0;
        while i < self.releases.len()
            invariant
                i <= self.releases.len(),
                rm == release_models(self.releases@),
                out@ + rendered_releases(rm, i as int) =~= head + rendered_releases(rm, 0),
            decreases self.releases.len() - i,
        {
            assert(rm[i as int] == self.releases@[i as int]@);
            let text = self.releases[i].render();
            out.append(text.as_str());
            i += 1;
        }
        if self.releases.len() > 0 {
            assert(rm[0] == self.releases@[0]@);
            let first = &self.releases[0];
            match (&first.version, &first.link) {
                (None, Some(link)) => {
                    out.append("[Unreleased]: ");
                    out.append(link.as_str());
                    out.append("\n");
                },
                _ => {},
            }
        }
        assert(out@ =~= head + rendered_releases(rm, 0) + rendered_unreleased_link(rm));
        let ghost body = out@;
        let order = link_order_of(&self.releases);
        let ghost at = places(order@);
        let mut j: usize = 0;
        while j < order.len()
            invariant
                j <= order.len(),
                rm == release_models(self.releases@),
                at == places(order@),
                forall|a: int|
                    0 <= a < order.len() ==> (#[trigger] order[a]) < self.releases.len()
                        && has_link_line(self.releases[order[a] as int]@),
                out@ + rendered_links(rm, at, j as int) =~= body + rendered_links(rm, at, 0),
            decreases order.len() - j,
        {
            assert(at[j as int] == order[j as int] as int);
            let release = &self.releases[order[j]];
            assert(rm[order[j as int] as int] == release@);
            match (&release.version, &release.link) {
                (Some(version), Some(link)) => {
                    let v = version.text();
                    out.append("[");
                    out.append(v.as_str());
                    out.append("]: ");
                    out.append(link.as_str());
                    out.append("\n");
                },
                _ => {},
            }
            j += 1;
        }
        out
    }
}

} // verus!
