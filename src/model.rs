use vstd::prelude::*;

verus! {

/// A group as listed by the API.
pub struct Group {
    pub id: usize,
    pub name: String,
}

/// The author of a merge request.
pub struct Author {
    pub username: String,
}

/// A project, of which only the name is kept.
pub struct Project {
    pub name: String,
}

/// A merge request as the API returns it, reduced to the fields in use.
pub struct MergeRequests {
    pub project_id: usize,
    pub title: String,
    pub web_url: String,
    pub author: Author,
}

/// A merge request joined with its group's and its project's names: the unit
/// that the cache holds.
pub struct ExpandedMergeRequests {
    pub project_name: String,
    pub group_name: String,
    pub title: String,
    pub web_url: String,
    pub author: Author,
}

/// The model of a group: its id and its name.
pub struct GroupView {
    pub id: usize,
    pub name: Seq<char>,
}

/// The model of a merge request as received.
pub struct MergeRequestView {
    pub project_id: usize,
    pub title: Seq<char>,
    pub web_url: Seq<char>,
    pub author: Seq<char>,
}

/// The model of a cached record.
pub struct RecordView {
    pub project_name: Seq<char>,
    pub group_name: Seq<char>,
    pub title: Seq<char>,
    pub web_url: Seq<char>,
    pub author: Seq<char>,
}

impl View for Group {
    type V = GroupView;

    open spec fn view(&self) -> GroupView {
        GroupView { id: self.id, name: self.name@ }
    }
}

impl View for MergeRequests {
    type V = MergeRequestView;

    open spec fn view(&self) -> MergeRequestView {
        MergeRequestView {
            project_id: self.project_id,
            title: self.title@,
            web_url: self.web_url@,
            author: self.author.username@,
        }
    }
}

impl View for ExpandedMergeRequests {
    type V = RecordView;

    open spec fn view(&self) -> RecordView {
        RecordView {
            project_name: self.project_name@,
            group_name: self.group_name@,
            title: self.title@,
            web_url: self.web_url@,
            author: self.author.username@,
        }
    }
}

/// The models of a sequence of records.
pub open spec fn records_view(s: Seq<ExpandedMergeRequests>) -> Seq<RecordView> {
    s.map_values(|r: ExpandedMergeRequests| r@)
}

impl Group {
    pub fn duplicate(&self) -> (r: Group)
        ensures
            r@ == self@,
    {
        Group { id: self.id, name: self.name.clone() }
    }
}

impl Author {
    pub fn duplicate(&self) -> (r: Author)
        ensures
            r.username@ == self.username@,
    {
        Author { username: self.username.clone() }
    }
}

impl MergeRequests {
    pub fn duplicate(&self) -> (r: MergeRequests)
        ensures
            r@ == self@,
    {
        MergeRequests {
            project_id: self.project_id,
            title: self.title.clone(),
            web_url: self.web_url.clone(),
            author: self.author.duplicate(),
        }
    }
}

} // verus!
