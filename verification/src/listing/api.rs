//! The handler of list requests.
use crate::io_error::{IoErrorKind, IoFailure};
use crate::listing::entries::EntryMetadata;
use crate::listing::items;
use crate::listing::items::lowercase_text;
use crate::listing::problems;
use crate::listing::problems::{respond_list_api_problem, ListingProblem};
use crate::listing::search::SearchOptions;
use crate::listing::walk::CollectionByteBudget;
use crate::path_policy::PathPolicy;
use crate::paths::LexicalPath;
use crate::problem;
use crate::problem::{ApiErrorView, ErrorCode, RecoveryAdvice};
use crate::response::Response;
use crate::steps::{Check, Step};
use crate::text;
use crate::text::{parse_number, str_eq};
use vstd::prelude::*;
use vstd::string::*;

verus! {

/// The path of list requests, below the root of the site.
pub const LIST_API_PATH: &'static str = "__dufs__/api/list";

pub const DEFAULT_LIST_PAGE_SIZE: usize = 200;

pub const MAX_LIST_PAGE_SIZE: usize = 500;

/// The most characters of a search.
pub const MAX_SEARCH_CHARACTERS: usize = 128;

/// The most entries of a directory that is listed.
pub const MAX_LIST_SNAPSHOT_ENTRIES: usize = 100000;

/// How deep a search goes.
pub const MAX_DIRECTORY_WALK_DEPTH: usize = 1024;

/// The most bytes that a search keeps of its way.
pub const MAX_DIRECTORY_WALK_WORKING_BYTES: usize = 33554432;

/// The cursor of a list request, once it has been decoded.
#[derive(Clone, Copy, Debug, Eq, PartialEq, Structural)]
pub enum CursorField {
    Absent,
    Invalid,
    Valid,
}

/// The parameters of a list request as they were sent.
pub struct ListQuery {
    pub path: Option<String>,
    pub sort: Option<String>,
    pub order: Option<String>,
    pub search: Option<String>,
    pub limit: Option<String>,
    pub cursor: CursorField,
}

/// A list request that makes sense.
pub struct ListRequest {
    pub path: LexicalPath,
    pub sort: String,
    pub order: String,
    pub search: String,
    pub limit: usize,
    pub continues: bool,
}

/// Why a list request is refused.
#[derive(Clone, Copy, Debug, Eq, PartialEq, Structural)]
pub enum ListRefusal {
    InvalidPath,
    SearchTooLong,
    InvalidLimit,
    InvalidCursor,
    TooManyOperations,
    NotADirectory,
    PathNotFound,
    DirectoryChanged,
    CursorUnavailable,
}

impl ListRefusal {
    pub open spec fn error(self) -> ApiErrorView {
        match self {
            ListRefusal::InvalidPath => ApiErrorView::new(
                400,
                ErrorCode::InvalidListPath,
                "Invalid list path"@,
            ),
            ListRefusal::SearchTooLong => ApiErrorView::new(
                400,
                ErrorCode::SearchQueryTooLong,
                "Search query is too long"@,
            ),
            ListRefusal::InvalidLimit => ApiErrorView::new(
                400,
                ErrorCode::InvalidListLimit,
                "Invalid list limit"@,
            ),
            ListRefusal::InvalidCursor => ApiErrorView::new(
                400,
                ErrorCode::InvalidListCursor,
                "Invalid list cursor"@,
            ),
            ListRefusal::TooManyOperations => ApiErrorView::new(
                429,
                ErrorCode::DirectoryOperationLimit,
                "Too many directory operations are running"@,
            ).with_recovery(RecoveryAdvice::RetryAfterSeconds(1)),
            ListRefusal::NotADirectory => ApiErrorView::new(
                409,
                ErrorCode::ListPathNotDirectory,
                "List path is not a directory"@,
            ).with_recovery(RecoveryAdvice::RefreshTarget),
            ListRefusal::PathNotFound => ApiErrorView::new(
                404,
                ErrorCode::ListPathNotFound,
                "List path was not found"@,
            ).with_recovery(RecoveryAdvice::RefreshTarget),
            ListRefusal::DirectoryChanged => ApiErrorView::new(
                409,
                ErrorCode::DirectoryChanged,
                "Directory changed; restart listing"@,
            ).with_recovery(RecoveryAdvice::RefreshTarget),
            ListRefusal::CursorUnavailable => ApiErrorView::new(
                409,
                ErrorCode::ListCursorUnavailable,
                "List cursor is no longer available; restart listing"@,
            ).with_recovery(RecoveryAdvice::RefreshTarget),
        }
    }

    /// Answers a list request with the refusal.
    pub fn respond(self, response: &mut Response)
        ensures
            final(response)@ == problem::problem_response(old(response)@, self.error()),
    {
        let (status, code, detail, recovery): (u16, ErrorCode, &'static str, RecoveryAdvice) =
            match self {
            ListRefusal::InvalidPath => (
                400,
                ErrorCode::InvalidListPath,
                "Invalid list path",
                RecoveryAdvice::NoAdvice,
            ),
            ListRefusal::SearchTooLong => (
                400,
                ErrorCode::SearchQueryTooLong,
                "Search query is too long",
                RecoveryAdvice::NoAdvice,
            ),
            ListRefusal::InvalidLimit => (
                400,
                ErrorCode::InvalidListLimit,
                "Invalid list limit",
                RecoveryAdvice::NoAdvice,
            ),
            ListRefusal::InvalidCursor => (
                400,
                ErrorCode::InvalidListCursor,
                "Invalid list cursor",
                RecoveryAdvice::NoAdvice,
            ),
            ListRefusal::TooManyOperations => (
                429,
                ErrorCode::DirectoryOperationLimit,
                "Too many directory operations are running",
                RecoveryAdvice::RetryAfterSeconds(1),
            ),
            ListRefusal::NotADirectory => (
                409,
                ErrorCode::ListPathNotDirectory,
                "List path is not a directory",
                RecoveryAdvice::RefreshTarget,
            ),
            ListRefusal::PathNotFound => (
                404,
                ErrorCode::ListPathNotFound,
                "List path was not found",
                RecoveryAdvice::RefreshTarget,
            ),
            ListRefusal::DirectoryChanged => (
                409,
                ErrorCode::DirectoryChanged,
                "Directory changed; restart listing",
                RecoveryAdvice::RefreshTarget,
            ),
            ListRefusal::CursorUnavailable => (
                409,
                ErrorCode::ListCursorUnavailable,
                "List cursor is no longer available; restart listing",
                RecoveryAdvice::RefreshTarget,
            ),
        };
        respond_list_api_problem(response, status, code, detail, recovery);
    }
}

/// The criterion of a sort, or the default one where the request names none that
/// there is.
pub open spec fn sort_of(value: Option<Seq<char>>) -> Seq<char> {
    match value {
        Some(value) => if value == "name"@ || value == "mtime"@ || value == "size"@ {
            value
        } else {
            "name"@
        },
        None => "name"@,
    }
}

/// The direction of a sort, or the default one.
pub open spec fn direction_of(value: Option<Seq<char>>) -> Seq<char> {
    match value {
        Some(value) => if value == "asc"@ || value == "desc"@ {
            value
        } else {
            "asc"@
        },
        None => "asc"@,
    }
}

/// The size of a page, if the request names one that it can have.
pub open spec fn limit_of(value: Option<Seq<char>>) -> Option<usize> {
    match value {
        None => Some(DEFAULT_LIST_PAGE_SIZE),
        Some(value) => match text::written_number(value) {
            Some(limit) => if 1 <= limit <= MAX_LIST_PAGE_SIZE {
                Some(limit as usize)
            } else {
                None
            },
            None => None,
        },
    }
}

/// Why a list request makes no sense, if it makes none.
pub open spec fn query_refusal(policy: PathPolicy, query: ListQuery) -> Option<ListRefusal> {
    let path = match problem::opt_string(query.path) {
        Some(path) => path,
        None => "/"@,
    };
    if !policy.is_list_target(path) {
        Some(ListRefusal::InvalidPath)
    } else if (match query.search {
        Some(search) => search@.len(),
        None => 0,
    }) > MAX_SEARCH_CHARACTERS {
        Some(ListRefusal::SearchTooLong)
    } else if limit_of(problem::opt_string(query.limit)) is None {
        Some(ListRefusal::InvalidLimit)
    } else if query.cursor == CursorField::Invalid {
        Some(ListRefusal::InvalidCursor)
    } else {
        None
    }
}

fn has_more_characters(value: &str, limit: usize) -> (more: bool)
    ensures
        more == (value@.len() > limit),
{
    let mut count: usize = 0;
    for character in it: value.chars()
        invariant
            it.seq() == value@,
            count <= limit,
            count == it.index(),
    {
        if count == limit {
            return true;
        }
        count = count + 1;
    }
    false
}

/// Reads a list request.
pub fn parse_list_request(policy: &PathPolicy, query: &ListQuery) -> (request: Result<
    ListRequest,
    ListRefusal,
>)
    ensures
        match request {
            Err(refusal) => query_refusal(*policy, *query) == Some(refusal),
            Ok(request) => {
                &&& query_refusal(*policy, *query) is None
                &&& request.path@ == policy.list_target(
                    match problem::opt_string(query.path) {
                        Some(path) => path,
                        None => "/"@,
                    },
                )
                &&& request.sort@ == sort_of(problem::opt_string(query.sort))
                &&& request.order@ == direction_of(problem::opt_string(query.order))
                &&& request.search@ == (match query.search {
                    Some(search) => search@,
                    None => Seq::empty(),
                })
                &&& Some(request.limit) == limit_of(problem::opt_string(query.limit))
                &&& request.continues == (query.cursor == CursorField::Valid)
            },
        },
{
    let logical = match &query.path {
        Some(path) => path.as_str(),
        None => "/",
    };
    let path = match policy.parse_list_target(logical) {
        Some(path) => path.into_path_buf(),
        None => return Err(ListRefusal::InvalidPath),
    };
    let sort = match &query.sort {
        Some(sort) if str_eq(sort.as_str(), "mtime") => "mtime",
        Some(sort) if str_eq(sort.as_str(), "size") => "size",
        _ => "name",
    };
    let order = match &query.order {
        Some(order) if str_eq(order.as_str(), "desc") => "desc",
        _ => "asc",
    };
    let search = match &query.search {
        Some(search) => search.clone(),
        None => String::new(),
    };
    if has_more_characters(search.as_str(), MAX_SEARCH_CHARACTERS) {
        return Err(ListRefusal::SearchTooLong);
    }
    let limit = match &query.limit {
        None => DEFAULT_LIST_PAGE_SIZE,
        Some(value) => match parse_number(value.as_str()) {
            Some(limit) => {
                if limit < 1 || limit > MAX_LIST_PAGE_SIZE {
                    return Err(ListRefusal::InvalidLimit);
                }
                limit
            },
            None => return Err(ListRefusal::InvalidLimit),
        },
    };
    let continues = match query.cursor {
        CursorField::Invalid => return Err(ListRefusal::InvalidCursor),
        CursorField::Absent => false,
        CursorField::Valid => true,
    };
    Ok(
        ListRequest {
            path,
            sort: String::from_str(sort),
            order: String::from_str(order),
            search,
            limit,
            continues,
        },
    )
}

/// What a list request looks at or does next.
#[derive(Clone, Copy, Debug, Eq, PartialEq, Structural)]
pub enum ListProbe {
    /// Take one of the places for directory operations.
    TakePlace,
    /// Look at the directory before it is read.
    StatBefore,
    /// Look up the next page of the snapshot that the cursor names.
    LookUpPage,
    /// Read the directory, or search below it, and sort what was found.
    Collect,
    /// Look at the directory after it was read.
    StatAfter,
    /// Keep what was found, and cut the first page off it.
    KeepSnapshot,
}

/// Why a snapshot has no next page for a request.
#[derive(Clone, Copy, Debug, Eq, PartialEq, Structural)]
pub enum ListSnapshotLookupError {
    InvalidBinding,
    DirectoryChanged,
    Unavailable,
}

/// What a list request has seen so far.
#[derive(Clone, Copy)]
pub struct ListSeen {
    pub place: Option<bool>,
    pub before: Option<Result<EntryMetadata, IoFailure>>,
    pub page: Option<Result<(), ListSnapshotLookupError>>,
    /// How many entries were found.
    pub collected: Option<Result<usize, ListingProblem>>,
    pub after: Option<Result<EntryMetadata, IoFailure>>,
    pub kept: Option<Result<(), ListingProblem>>,
}

impl ListSeen {
    pub fn new() -> (seen: ListSeen)
        ensures
            seen == (ListSeen {
                place: None,
                before: None,
                page: None,
                collected: None,
                after: None,
                kept: None,
            }),
    {
        ListSeen {
            place: None,
            before: None,
            page: None,
            collected: None,
            after: None,
            kept: None,
        }
    }
}

/// How a list request ends.
#[derive(Clone, Copy, Debug, Eq, PartialEq, Structural)]
pub enum ListVerdict {
    Refuse(ListRefusal),
    /// The listing failed.
    Report(ListingProblem),
    /// The filesystem failed before anything was listed.
    Fail(IoFailure),
    /// The page that was looked up.
    NextPage,
    /// The first page of what was kept.
    FirstPage,
    /// Everything that was found, on one page.
    WholeListing,
}

pub type ListCheck = Check<ListProbe, ListVerdict>;

pub type ListStep = Step<ListProbe, ListVerdict>;

/// A first page needs a place among the directory operations; a further page
/// does not.
pub open spec fn place_is_taken(continues: bool, seen: ListSeen) -> ListCheck {
    if continues {
        Check::Pass
    } else {
        match seen.place {
            None => Check::Ask(ListProbe::TakePlace),
            Some(true) => Check::Pass,
            Some(false) => Check::Stop(ListVerdict::Refuse(ListRefusal::TooManyOperations)),
        }
    }
}

pub open spec fn path_is_directory(seen: ListSeen) -> ListCheck {
    match seen.before {
        None => Check::Ask(ListProbe::StatBefore),
        Some(Ok(metadata)) => if metadata.is_directory {
            Check::Pass
        } else {
            Check::Stop(ListVerdict::Refuse(ListRefusal::NotADirectory))
        },
        Some(Err(failure)) => if failure.missing() {
            Check::Stop(ListVerdict::Refuse(ListRefusal::PathNotFound))
        } else {
            Check::Stop(ListVerdict::Fail(failure))
        },
    }
}

/// A request with a cursor is answered from the snapshot, and never reads the
/// directory.
pub open spec fn next_page(continues: bool, seen: ListSeen) -> ListCheck {
    if !continues {
        Check::Pass
    } else {
        match seen.page {
            None => Check::Ask(ListProbe::LookUpPage),
            Some(Ok(_)) => Check::Stop(ListVerdict::NextPage),
            Some(Err(ListSnapshotLookupError::InvalidBinding)) => Check::Stop(
                ListVerdict::Refuse(ListRefusal::InvalidCursor),
            ),
            Some(Err(ListSnapshotLookupError::DirectoryChanged)) => Check::Stop(
                ListVerdict::Refuse(ListRefusal::DirectoryChanged),
            ),
            Some(Err(ListSnapshotLookupError::Unavailable)) => Check::Stop(
                ListVerdict::Refuse(ListRefusal::CursorUnavailable),
            ),
        }
    }
}

pub open spec fn entries_are_collected(seen: ListSeen) -> ListCheck {
    match seen.collected {
        None => Check::Ask(ListProbe::Collect),
        Some(Ok(_)) => Check::Pass,
        Some(Err(problem)) => Check::Stop(ListVerdict::Report(problem)),
    }
}

/// The directory is still the one that was there before it was read.
pub open spec fn directory_is_unchanged(seen: ListSeen) -> ListCheck {
    match seen.after {
        None => Check::Ask(ListProbe::StatAfter),
        Some(Err(failure)) => Check::Stop(
            ListVerdict::Report(problems::problem_of(failure.kind)),
        ),
        Some(Ok(metadata)) => if !metadata.is_directory {
            Check::Stop(ListVerdict::Report(ListingProblem::DirectoryChanged))
        } else if metadata.snapshot != seen.before->0->Ok_0.snapshot {
            Check::Stop(ListVerdict::Refuse(ListRefusal::DirectoryChanged))
        } else {
            Check::Pass
        },
    }
}

/// What does not fit on one page is kept.
pub open spec fn first_page(limit: usize, seen: ListSeen) -> ListCheck {
    if seen.collected->0->Ok_0 <= limit {
        Check::Pass
    } else {
        match seen.kept {
            None => Check::Ask(ListProbe::KeepSnapshot),
            Some(Ok(_)) => Check::Stop(ListVerdict::FirstPage),
            Some(Err(problem)) => Check::Stop(ListVerdict::Report(problem)),
        }
    }
}

/// The checks of a list request, in order.
pub open spec fn list_checks(continues: bool, limit: usize, seen: ListSeen) -> ListCheck {
    place_is_taken(continues, seen).followed_by(path_is_directory(seen)).followed_by(
        next_page(continues, seen),
    ).followed_by(entries_are_collected(seen)).followed_by(
        directory_is_unchanged(seen),
    ).followed_by(first_page(limit, seen))
}

/// Decides a list request that makes sense: what to look at or do next, or how
/// it ends.
pub fn handle_list_api(continues: bool, limit: usize, seen: &ListSeen) -> (step: ListStep)
    ensures
        step == list_checks(continues, limit, *seen).otherwise(ListVerdict::WholeListing),
{
    if !continues {
        match seen.place {
            None => return Step::Ask(ListProbe::TakePlace),
            Some(true) => {},
            Some(false) => return Step::Done(
                ListVerdict::Refuse(ListRefusal::TooManyOperations),
            ),
        }
    }
    let before = match seen.before {
        None => return Step::Ask(ListProbe::StatBefore),
        Some(Ok(metadata)) => {
            if !metadata.is_directory {
                return Step::Done(ListVerdict::Refuse(ListRefusal::NotADirectory));
            }
            metadata.snapshot
        },
        Some(Err(failure)) => {
            if failure.is_missing() {
                return Step::Done(ListVerdict::Refuse(ListRefusal::PathNotFound));
            }
            return Step::Done(ListVerdict::Fail(failure));
        },
    };
    if continues {
        return match seen.page {
            None => Step::Ask(ListProbe::LookUpPage),
            Some(Ok(_)) => Step::Done(ListVerdict::NextPage),
            Some(Err(ListSnapshotLookupError::InvalidBinding)) => Step::Done(
                ListVerdict::Refuse(ListRefusal::InvalidCursor),
            ),
            Some(Err(ListSnapshotLookupError::DirectoryChanged)) => Step::Done(
                ListVerdict::Refuse(ListRefusal::DirectoryChanged),
            ),
            Some(Err(ListSnapshotLookupError::Unavailable)) => Step::Done(
                ListVerdict::Refuse(ListRefusal::CursorUnavailable),
            ),
        };
    }
    let found = match seen.collected {
        None => return Step::Ask(ListProbe::Collect),
        Some(Ok(found)) => found,
        Some(Err(problem)) => return Step::Done(ListVerdict::Report(problem)),
    };
    match seen.after {
        None => return Step::Ask(ListProbe::StatAfter),
        Some(Err(failure)) => return Step::Done(
            ListVerdict::Report(problems::problem_of_failure(failure.kind)),
        ),
        Some(Ok(metadata)) => {
            if !metadata.is_directory {
                return Step::Done(ListVerdict::Report(ListingProblem::DirectoryChanged));
            }
            if metadata.snapshot != before {
                return Step::Done(ListVerdict::Refuse(ListRefusal::DirectoryChanged));
            }
        },
    }
    if found <= limit {
        return Step::Done(ListVerdict::WholeListing);
    }
    match seen.kept {
        None => Step::Ask(ListProbe::KeepSnapshot),
        Some(Ok(_)) => Step::Done(ListVerdict::FirstPage),
        Some(Err(problem)) => Step::Done(ListVerdict::Report(problem)),
    }
}

/// How a request that searches walks below its directory: the search is in lower
/// case, and its results take no more bytes than a listing may.
pub fn search_dir(
    request: &ListRequest,
    root: &LexicalPath,
    max_entries: usize,
    max_bytes: usize,
) -> (options: SearchOptions)
    ensures
        options.base@ == request.path@,
        options.root@ == root@,
        options.search@ == items::lowercase(request.search@),
        options.max_entries == max_entries,
        options.max_depth == MAX_DIRECTORY_WALK_DEPTH,
        options.max_working_bytes == MAX_DIRECTORY_WALK_WORKING_BYTES,
        options.budget.max_bytes == max_bytes,
        options.budget.operation@ == "search_result"@,
        options.budget.reason@ == "result_memory_budget"@,
        options.budget.problem == ListingProblem::SearchResultLimit,
        options.budget.allocation_problem == ListingProblem::SearchResultLimit,
{
    SearchOptions {
        base: request.path.copy(),
        root: root.copy(),
        search: lowercase_text(request.search.as_str()),
        max_entries,
        max_depth: MAX_DIRECTORY_WALK_DEPTH,
        max_working_bytes: MAX_DIRECTORY_WALK_WORKING_BYTES,
        budget: CollectionByteBudget {
            max_bytes,
            operation: "search_result",
            reason: "result_memory_budget",
            problem: ListingProblem::SearchResultLimit,
            allocation_problem: ListingProblem::SearchResultLimit,
        },
    }
}

/// A listing is served only where the directory was seen to be the same before
/// and after it was read, and on one page only where it fits on one.
pub proof fn law_served_listings_were_stable(limit: usize, seen: ListSeen, verdict: ListVerdict)
    requires
        list_checks(false, limit, seen).otherwise(ListVerdict::WholeListing) == ListStep::Done(
            verdict,
        ),
        verdict == ListVerdict::WholeListing || verdict == ListVerdict::FirstPage,
    ensures
        seen.place == Some(true),
        seen.before matches Some(Ok(before)) && before.is_directory && (
        seen.after matches Some(Ok(after)) && after.is_directory && after.snapshot
            == before.snapshot),
        seen.collected matches Some(Ok(found)) && (verdict == ListVerdict::WholeListing <==> found
            <= limit),
{
}

/// A request with a cursor takes no place among the directory operations and
/// never reads the directory.
pub proof fn law_further_pages_need_no_place(limit: usize, seen: ListSeen)
    ensures
        list_checks(true, limit, seen) != ListCheck::Ask(ListProbe::TakePlace),
        list_checks(true, limit, seen) != ListCheck::Ask(ListProbe::Collect),
        list_checks(true, limit, seen) != ListCheck::Ask(ListProbe::StatAfter),
        list_checks(true, limit, seen) != ListCheck::Ask(ListProbe::KeepSnapshot),
        list_checks(true, limit, seen) !is Pass,
{
}

/// A directory that is there, and the same before and after it was read, is listed: on
/// one page where what was found fits on one, and else from a snapshot that is kept.
pub proof fn law_stable_directories_are_listed(
    limit: usize,
    seen: ListSeen,
    before: EntryMetadata,
    after: EntryMetadata,
    found: usize,
)
    requires
        seen.place == Some(true),
        seen.before == Some(Ok::<EntryMetadata, IoFailure>(before)),
        before.is_directory,
        seen.collected == Some(Ok::<usize, ListingProblem>(found)),
        seen.after == Some(Ok::<EntryMetadata, IoFailure>(after)),
        after.is_directory,
        after.snapshot == before.snapshot,
    ensures
        list_checks(false, limit, seen).otherwise(ListVerdict::WholeListing) == (if found <= limit {
            ListStep::Done(ListVerdict::WholeListing)
        } else {
            match seen.kept {
                None => ListStep::Ask(ListProbe::KeepSnapshot),
                Some(Ok(_)) => ListStep::Done(ListVerdict::FirstPage),
                Some(Err(problem)) => ListStep::Done(ListVerdict::Report(problem)),
            }
        }),
{
}

/// A request with a cursor gets the page that its snapshot has for it, or is told why
/// there is none.
pub proof fn law_cursors_get_their_page(limit: usize, seen: ListSeen, before: EntryMetadata)
    requires
        seen.before == Some(Ok::<EntryMetadata, IoFailure>(before)),
        before.is_directory,
    ensures
        list_checks(true, limit, seen).otherwise(ListVerdict::WholeListing) == (match seen.page {
            None => ListStep::Ask(ListProbe::LookUpPage),
            Some(Ok(_)) => ListStep::Done(ListVerdict::NextPage),
            Some(Err(ListSnapshotLookupError::InvalidBinding)) => ListStep::Done(
                ListVerdict::Refuse(ListRefusal::InvalidCursor),
            ),
            Some(Err(ListSnapshotLookupError::DirectoryChanged)) => ListStep::Done(
                ListVerdict::Refuse(ListRefusal::DirectoryChanged),
            ),
            Some(Err(ListSnapshotLookupError::Unavailable)) => ListStep::Done(
                ListVerdict::Refuse(ListRefusal::CursorUnavailable),
            ),
        }),
{
}

/// Each end of a list request has its cause.
pub proof fn law_ends_of_listings_have_their_cause(
    continues: bool,
    limit: usize,
    seen: ListSeen,
    verdict: ListVerdict,
)
    requires
        list_checks(continues, limit, seen).otherwise(ListVerdict::WholeListing) == ListStep::Done(
            verdict,
        ),
    ensures
        match verdict {
            ListVerdict::Refuse(refusal) => match refusal {
                ListRefusal::TooManyOperations => !continues && seen.place == Some(false),
                ListRefusal::NotADirectory => seen.before matches Some(Ok(before))
                    && !before.is_directory,
                ListRefusal::PathNotFound => seen.before matches Some(Err(failure)) && (failure.kind
                    == IoErrorKind::NotFound || failure.kind == IoErrorKind::NotADirectory),
                ListRefusal::InvalidCursor => continues && seen.page == Some(
                    Err::<(), ListSnapshotLookupError>(ListSnapshotLookupError::InvalidBinding),
                ),
                ListRefusal::CursorUnavailable => continues && seen.page == Some(
                    Err::<(), ListSnapshotLookupError>(ListSnapshotLookupError::Unavailable),
                ),
                ListRefusal::DirectoryChanged => if continues {
                    seen.page == Some(
                        Err::<(), ListSnapshotLookupError>(
                            ListSnapshotLookupError::DirectoryChanged,
                        ),
                    )
                } else {
                    (seen.before matches Some(Ok(before)) && (seen.after matches Some(Ok(after))
                        && after.snapshot != before.snapshot))
                },
                _ => false,
            },
            ListVerdict::Report(problem) => !continues && {
                ||| seen.collected == Some(Err::<usize, ListingProblem>(problem))
                ||| seen.kept == Some(Err::<(), ListingProblem>(problem)) && (
                seen.collected matches Some(Ok(found)) && found > limit)
                ||| (seen.after matches Some(Err(failure)) && problem == problems::problem_of(
                    failure.kind,
                ))
                ||| (seen.after matches Some(Ok(after)) && !after.is_directory && problem
                    == ListingProblem::DirectoryChanged)
            },
            ListVerdict::Fail(failure) => seen.before == Some(
                Err::<EntryMetadata, IoFailure>(failure),
            ) && failure.kind != IoErrorKind::NotFound && failure.kind
                != IoErrorKind::NotADirectory,
            ListVerdict::NextPage => continues && (seen.page matches Some(Ok(_))),
            ListVerdict::FirstPage => !continues && (seen.kept matches Some(Ok(_))),
            ListVerdict::WholeListing => !continues && (seen.collected matches Some(Ok(found))
                && found <= limit),
        },
{
}

/// Only what is not known yet is looked at, and a directory is read only once it was
/// seen to be one and with a place among the directory operations.
pub proof fn law_listings_look_once(
    continues: bool,
    limit: usize,
    seen: ListSeen,
    probe: ListProbe,
)
    requires
        list_checks(continues, limit, seen) == ListCheck::Ask(probe),
    ensures
        match probe {
            ListProbe::TakePlace => !continues && seen.place is None,
            ListProbe::StatBefore => seen.before is None,
            ListProbe::LookUpPage => continues && seen.page is None,
            ListProbe::Collect => seen.collected is None && seen.place == Some(true) && (
            seen.before matches Some(Ok(before)) && before.is_directory),
            ListProbe::StatAfter => seen.after is None && (seen.collected matches Some(Ok(_))),
            ListProbe::KeepSnapshot => seen.kept is None && (seen.collected matches Some(Ok(found))
                && found > limit),
        },
{
}

/// A listing is sorted by name, size or time as the request asks, and by name where it
/// asks for nothing that there is. It ascends unless the request asks for the opposite.
pub proof fn law_orders_are_read_as_written(value: Option<Seq<char>>)
    ensures
        sort_of(Some("size"@)) == "size"@,
        sort_of(Some("mtime"@)) == "mtime"@,
        sort_of(Some("name"@)) == "name"@,
        value != Some("size"@) && value != Some("mtime"@) ==> sort_of(value) == "name"@,
        direction_of(Some("desc"@)) == "desc"@,
        value != Some("desc"@) ==> direction_of(value) == "asc"@,
{
}

/// A page has the size that the request names, from one to five hundred entries, and
/// two hundred where it names none. Any other size is refused.
pub proof fn law_page_sizes_are_read_as_written(number: nat)
    requires
        number <= usize::MAX,
    ensures
        limit_of(None) == Some(200usize),
        1 <= number <= 500 ==> limit_of(Some(text::decimal(number))) == Some(number as usize),
        number == 0 || number > 500 ==> limit_of(Some(text::decimal(number))) is None,
{
    text::law_decimals_read_back(number, 0);
}

/// A list request makes sense where its path can be listed, its search is not too long,
/// its page has a size that a page can have, and its cursor was not made up; and what is
/// said to be wrong with one is.
pub proof fn law_sound_list_requests_are_read(policy: PathPolicy, query: ListQuery)
    ensures
        query_refusal(policy, query) is None <==> {
            &&& policy.is_list_target(
                if query.path is Some {
                    query.path->0@
                } else {
                    "/"@
                },
            )
            &&& query.search is Some ==> query.search->0@.len() <= 128
            &&& limit_of(
                if query.limit is Some {
                    Some(query.limit->0@)
                } else {
                    None
                },
            ) is Some
            &&& query.cursor != CursorField::Invalid
        },
        match query_refusal(policy, query) {
            None => true,
            Some(ListRefusal::InvalidPath) => !policy.is_list_target(
                if query.path is Some {
                    query.path->0@
                } else {
                    "/"@
                },
            ),
            Some(ListRefusal::SearchTooLong) => query.search is Some && query.search->0@.len()
                > 128,
            Some(ListRefusal::InvalidLimit) => query.limit is Some && limit_of(
                Some(query.limit->0@),
            ) is None,
            Some(ListRefusal::InvalidCursor) => query.cursor == CursorField::Invalid,
            Some(_) => false,
        },
{
}

/// Each refusal of a list request has its status.
pub proof fn law_list_refusals_have_their_status(refusal: ListRefusal)
    ensures
        refusal.error().status == (match refusal {
            ListRefusal::InvalidPath
            | ListRefusal::SearchTooLong
            | ListRefusal::InvalidLimit
            | ListRefusal::InvalidCursor => 400u16,
            ListRefusal::TooManyOperations => 429u16,
            ListRefusal::PathNotFound => 404u16,
            ListRefusal::NotADirectory
            | ListRefusal::DirectoryChanged
            | ListRefusal::CursorUnavailable => 409u16,
        }),
        refusal.error().code == (match refusal {
            ListRefusal::InvalidPath => ErrorCode::InvalidListPath,
            ListRefusal::SearchTooLong => ErrorCode::SearchQueryTooLong,
            ListRefusal::InvalidLimit => ErrorCode::InvalidListLimit,
            ListRefusal::InvalidCursor => ErrorCode::InvalidListCursor,
            ListRefusal::TooManyOperations => ErrorCode::DirectoryOperationLimit,
            ListRefusal::NotADirectory => ErrorCode::ListPathNotDirectory,
            ListRefusal::PathNotFound => ErrorCode::ListPathNotFound,
            ListRefusal::DirectoryChanged => ErrorCode::DirectoryChanged,
            ListRefusal::CursorUnavailable => ErrorCode::ListCursorUnavailable,
        }),
{
}

} // verus!
