//! Asking GitHub which branches hold a commit.
use vstd::prelude::*;
use vstd::slice::*;
use vstd::string::*;

use crate::github::json::{insert_text, member_keys, no_variables, number_members, text_members, Json};
use crate::github::types::{
    BranchReachability, BranchReachabilityRequest, BranchReachabilityStatus, BranchReachabilityView,
    RequestView, StatusView,
};
use crate::text::{
    decimal, decimal_reads_back, decimal_text, has_prefix, holds, holds_in_the_middle, join, joined,
    joined_holds_its_parts, least, same, views,
};

verus! {

/// How many questions go into one request.
pub const COMPARE_CHUNK_SIZE: usize = 10;

/// How many requests are under way at a time.
pub const MAX_PARALLEL_COMPARE_CHUNKS: usize = 4;

/// `name` with the number `index` behind it.
pub open spec fn numbered(name: Seq<char>, index: nat) -> Seq<char> {
    name + decimal(index)
}

fn number(name: &str, index: usize) -> (r: String)
    ensures
        r@ == numbered(name@, index as nat),
{
    let mut out = name.to_owned();
    let digits = decimal_text(index as u128);
    out.append(digits.as_str());
    out
}

/// The name under which the answer to the question `index` comes back.
pub fn compare_alias(index: usize) -> (r: String)
    ensures
        r@ == numbered("branch"@, index as nat),
{
    number("branch", index)
}

/// The variables of question `index`, as they are declared.
pub open spec fn definition(index: nat) -> Seq<char> {
    "$"@ + numbered("branch"@, index) + ": String!, $"@ + numbered("commit"@, index) + ": String!"@
}

/// Question `index`, as it is asked.
pub open spec fn field(index: nat) -> Seq<char> {
    numbered("branch"@, index) + ": ref(qualifiedName: $"@ + numbered("branch"@, index)
        + ") { compare(headRef: $"@ + numbered("commit"@, index) + ") { status } }"@
}

/// A request with `count` questions.
pub open spec fn compare_text(count: nat) -> Seq<char> {
    "query("@ + joined(Seq::new(count, |i: int| definition(i as nat)), ", "@)
        + ") { repository(owner: \"NixOS\", name: \"nixpkgs\") { "@ + joined(
        Seq::new(count, |i: int| field(i as nat)),
        "\n"@,
    ) + " } }"@
}

/// The values of the variables of a request.
pub open spec fn compare_values(requests: Seq<RequestView>) -> Map<Seq<char>, Seq<char>>
    decreases requests.len(),
{
    if requests.len() == 0 {
        Map::empty()
    } else {
        let last = (requests.len() - 1) as nat;
        compare_values(requests.drop_last()).insert(numbered("branch"@, last), requests.last().branch).insert(
            numbered("commit"@, last),
            requests.last().commit_sha,
        )
    }
}

/// The request that asks all of `requests`, and the values of its variables.
pub fn compare_query(requests: &[BranchReachabilityRequest]) -> (r: (
    String,
    serde_json::Map<String, serde_json::Value>,
))
    ensures
        r.0@ == compare_text(requests@.len()),
        text_members(r.1) == compare_values(views(requests@)),
        (number_members(r.1) == Map::<Seq<char>, u64>::empty()),
        member_keys(r.1) == compare_values(views(requests@)).dom(),
{
    let mut variables = no_variables();
    let mut definitions: Vec<String> = Vec::new();
    let mut fields: Vec<String> = Vec::new();
    let mut index: usize = 0;
    let ghost asked = views(requests@);
    proof {
        assert(asked.take(0) =~= Seq::empty());
        assert(member_keys(variables) =~= compare_values(asked.take(0)).dom());
    }
    while index < requests.len()
        invariant
            0 <= index <= requests@.len(),
            asked == views(requests@),
            definitions@.len() == index,
            fields@.len() == index,
            forall|i: int| 0 <= i < index ==> (#[trigger] definitions@[i])@ == definition(i as nat),
            forall|i: int| 0 <= i < index ==> (#[trigger] fields@[i])@ == field(i as nat),
            text_members(variables) == compare_values(asked.take(index as int)),
            number_members(variables) == Map::<Seq<char>, u64>::empty(),
            member_keys(variables) == compare_values(asked.take(index as int)).dom(),
        decreases requests@.len() - index,
    {
        let branch_var = number("branch", index);
        let commit_var = number("commit", index);
        let alias = compare_alias(index);

        let mut definition_text = "$".to_owned();
        definition_text.append(branch_var.as_str());
        definition_text.append(": String!, $");
        definition_text.append(commit_var.as_str());
        definition_text.append(": String!");
        definitions.push(definition_text);

        let mut field_text = alias;
        field_text.append(": ref(qualifiedName: $");
        field_text.append(branch_var.as_str());
        field_text.append(") { compare(headRef: $");
        field_text.append(commit_var.as_str());
        field_text.append(") { status } }");
        fields.push(field_text);

        insert_text(&mut variables, branch_var, requests[index].branch.clone());
        insert_text(&mut variables, commit_var, requests[index].commit_sha.clone());
        proof {
            let next = asked.take(index + 1);
            assert(next.drop_last() =~= asked.take(index as int));
            assert(next.last() == requests@[index as int]@);
            assert(number_members(variables) =~= Map::<Seq<char>, u64>::empty());
            assert(member_keys(variables) =~= compare_values(next).dom());
        }
        index += 1;
    }
    proof {
        assert(asked.take(index as int) =~= asked);
        assert(views(definitions@) =~= Seq::new(requests@.len(), |i: int| definition(i as nat)));
        assert(views(fields@) =~= Seq::new(requests@.len(), |i: int| field(i as nat)));
    }
    let mut query = "query(".to_owned();
    query.append(join(definitions.as_slice(), ", ").as_str());
    query.append(") { repository(owner: \"NixOS\", name: \"nixpkgs\") { ");
    query.append(join(fields.as_slice(), "\n").as_str());
    query.append(" } }");
    (query, variables)
}

/// What a comparison of a commit with a branch says of the branch.
pub open spec fn compared(status: Seq<char>) -> StatusView {
    if status == "BEHIND"@ || status == "IDENTICAL"@ {
        StatusView::Contains
    } else if status == "AHEAD"@ || status == "DIVERGED"@ {
        StatusView::Missing
    } else {
        StatusView::Unknown("unknown comparison status "@ + status)
    }
}

/// What a comparison of a commit with a branch says of the branch: one that
/// the commit is behind, or identical to, holds it.
pub fn compare_status_to_reachability(status: &str) -> (r: BranchReachabilityStatus)
    ensures
        r@ == compared(status@),
{
    if same(status, "BEHIND") || same(status, "IDENTICAL") {
        BranchReachabilityStatus::Contains
    } else if same(status, "AHEAD") || same(status, "DIVERGED") {
        BranchReachabilityStatus::Missing
    } else {
        let mut reason = "unknown comparison status ".to_owned();
        reason.append(status);
        BranchReachabilityStatus::Unknown(reason)
    }
}

/// The comparison that `repository` gives for question `index`.
pub open spec fn comparison(repository: Json, index: nat) -> Option<Seq<char>> {
    match repository.member(numbered("branch"@, index)) {
        None => None,
        Some(branch) => match branch.member("compare"@) {
            None => None,
            Some(compare) => match compare.member("status"@) {
                None => None,
                Some(status) => status.text(),
            },
        },
    }
}

/// What the answer says to question `index`.
pub open spec fn answer_to(repository: Json, index: nat) -> StatusView {
    match comparison(repository, index) {
        Some(status) => compared(status),
        None => StatusView::Unknown("comparison unavailable"@),
    }
}

fn read_answer(repository: &Json, index: usize) -> (r: BranchReachabilityStatus)
    ensures
        r@ == answer_to(*repository, index as nat),
{
    let alias = compare_alias(index);
    if let Some(branch) = repository.get(alias.as_str()) {
        if let Some(compare) = branch.get("compare") {
            if let Some(status) = compare.get("status") {
                if let Some(text) = status.as_str() {
                    return compare_status_to_reachability(text.as_str());
                }
            }
        }
    }
    BranchReachabilityStatus::Unknown("comparison unavailable".to_owned())
}

/// The findings of one request: each branch asked about, in order, with what
/// the answer says of it.
pub open spec fn findings(requests: Seq<RequestView>, repository: Json) -> Seq<BranchReachabilityView> {
    Seq::new(
        requests.len(),
        |i: int| BranchReachabilityView { branch: requests[i].branch, status: answer_to(repository, i as nat) },
    )
}

/// The findings of a request without an answer.
pub open spec fn no_findings(requests: Seq<RequestView>, reason: Seq<char>) -> Seq<BranchReachabilityView> {
    Seq::new(
        requests.len(),
        |i: int| BranchReachabilityView { branch: requests[i].branch, status: StatusView::Unknown(reason) },
    )
}

/// An answer without the repository that was asked about.
#[derive(Debug, Clone, Copy, PartialEq, Eq)]
pub struct MissingRepository;

impl MissingRepository {
    /// What to tell the user.
    pub open spec fn text() -> Seq<char> {
        "GitHub GraphQL response missing repository"@
    }

    /// What to tell the user.
    pub fn message(&self) -> (r: String)
        ensures
            r@ == Self::text(),
    {
        "GitHub GraphQL response missing repository".to_owned()
    }
}

/// Reads the answer to `requests` out of `data`.
pub fn compare_branches(requests: &[BranchReachabilityRequest], data: &Json) -> (r: Result<
    Vec<BranchReachability>,
    MissingRepository,
>)
    ensures
        r is Ok <==> requests@.len() == 0 || data.member("repository"@) is Some,
        r matches Ok(found) ==> requests@.len() == 0 ==> found@.len() == 0,
        r matches Ok(found) ==> requests@.len() > 0 ==> views(found@) == findings(
            views(requests@),
            data.member("repository"@)->0,
        ),
{
    let mut found: Vec<BranchReachability> = Vec::new();
    if requests.len() == 0 {
        return Ok(found);
    }
    let repository = match data.get("repository") {
        Some(repository) => repository,
        None => {
            return Err(MissingRepository);
        },
    };
    let mut index: usize = 0;
    while index < requests.len()
        invariant
            0 <= index <= requests@.len(),
            found@.len() == index,
            forall|i: int|
                0 <= i < index ==> (#[trigger] found@[i])@ == findings(views(requests@), *repository)[i],
        decreases requests@.len() - index,
    {
        let status = read_answer(repository, index);
        found.push(BranchReachability { branch: requests[index].branch.clone(), status });
        index += 1;
    }
    assert(views(found@) =~= findings(views(requests@), *repository));
    Ok(found)
}

/// The causes of an error, from the outermost in, as one line.
pub fn error_chain(causes: &[String]) -> (r: String)
    ensures
        r@ == joined(views(causes@), ": "@),
{
    join(causes, ": ")
}

/// The findings of one request, whatever came of it.
pub open spec fn chunk_findings(requests: Seq<RequestView>, answer: Result<Json, Seq<Seq<char>>>) -> Seq<
    BranchReachabilityView,
> {
    match answer {
        Ok(data) => match data.member("repository"@) {
            Some(repository) => findings(requests, repository),
            None => no_findings(requests, MissingRepository::text()),
        },
        Err(causes) => no_findings(requests, joined(causes, ": "@)),
    }
}

/// What an answer, or the causes of its absence, stand for.
pub open spec fn answer_view(answer: Result<Json, Vec<String>>) -> Result<Json, Seq<Seq<char>>> {
    match answer {
        Ok(data) => Ok(data),
        Err(causes) => Err(views(causes@)),
    }
}

/// The findings of one request: what the answer says, or for each branch why
/// there is none.
pub fn probe_chunk(requests: &[BranchReachabilityRequest], answer: &Result<Json, Vec<String>>) -> (r: Vec<
    BranchReachability,
>)
    ensures
        views(r@) == chunk_findings(views(requests@), answer_view(*answer)),
{
    let reason = match answer {
        Ok(data) => match compare_branches(requests, data) {
            Ok(found) => {
                assert(views(found@) =~= chunk_findings(views(requests@), answer_view(*answer)));
                return found;
            },
            Err(error) => error.message(),
        },
        Err(causes) => error_chain(causes.as_slice()),
    };
    let mut found: Vec<BranchReachability> = Vec::new();
    let mut index: usize = 0;
    while index < requests.len()
        invariant
            0 <= index <= requests@.len(),
            found@.len() == index,
            forall|i: int|
                0 <= i < index ==> (#[trigger] found@[i])@ == no_findings(views(requests@), reason@)[i],
        decreases requests@.len() - index,
    {
        found.push(
            BranchReachability {
                branch: requests[index].branch.clone(),
                status: BranchReachabilityStatus::Unknown(reason.clone()),
            },
        );
        index += 1;
    }
    assert(views(found@) =~= no_findings(views(requests@), reason@));
    found
}

/// Every branch that was asked about gets one finding, in the order asked,
/// whatever came of the request.
pub proof fn every_question_is_answered(requests: Seq<RequestView>, answer: Result<Json, Seq<Seq<char>>>)
    ensures
        chunk_findings(requests, answer).len() == requests.len(),
        forall|i: int|
            0 <= i < requests.len() ==> (#[trigger] chunk_findings(requests, answer)[i]).branch
                == requests[i].branch,
{
}

/// Question `k` is in request `k / 10`, as number `k % 10`; this is what
/// comes of it, with one answer for each request.
pub open spec fn probed(requests: Seq<RequestView>, answers: Seq<Result<Json, Seq<Seq<char>>>>, k: int) -> BranchReachabilityView {
    let from = k / 10 * 10;
    chunk_findings(requests.subrange(from, least(from + 10, requests.len() as int)), answers[k / 10])[k % 10]
}

/// What answers, or the causes of their absence, stand for.
pub open spec fn answer_views(answers: Seq<Result<Json, Vec<String>>>) -> Seq<Result<Json, Seq<Seq<char>>>> {
    answers.map_values(|answer: Result<Json, Vec<String>>| answer_view(answer))
}

/// Puts the findings of all requests together, in the order of the
/// questions. `answers` holds one answer for each request of the plan.
pub fn probe(requests: &[BranchReachabilityRequest], answers: &[Result<Json, Vec<String>>]) -> (r: Vec<
    BranchReachability,
>)
    requires
        answers@.len() == (requests@.len() + 9) / 10,
    ensures
        views(r@) == Seq::new(
            requests@.len(),
            |k: int| probed(views(requests@), answer_views(answers@), k),
        ),
{
    let mut results: Vec<BranchReachability> = Vec::new();
    let count: usize = requests.len();
    let mut chunk: usize = 0;
    let ghost asked = views(requests@);
    let ghost told = answer_views(answers@);
    while chunk < answers.len()
        invariant
            0 <= chunk <= answers@.len() == (requests@.len() + 9) / 10,
            asked == views(requests@),
            told == answer_views(answers@),
            results@.len() == least(10 * chunk, requests@.len() as int),
            count == requests@.len(),
            forall|k: int| 0 <= k < results@.len() ==> (#[trigger] results@[k])@ == probed(asked, told, k),
        decreases answers@.len() - chunk,
    {
        let from: usize = results.len();
        let to: usize = if count - from > COMPARE_CHUNK_SIZE {
            from + COMPARE_CHUNK_SIZE
        } else {
            count
        };
        let part = slice_subrange(requests, from, to);
        let mut found = probe_chunk(part, &answers[chunk]);
        let ghost before = results@;
        let ghost piece = found@;
        results.append(&mut found);
        proof {
            assert(views(part@) =~= asked.subrange(from as int, to as int));
            assert(told[chunk as int] == answer_view(answers@[chunk as int]));
            every_question_is_answered(views(part@), told[chunk as int]);
            assert(views(piece).len() == piece.len());
            assert(from == 10 * chunk);
            assert forall|k: int| 0 <= k < results@.len() implies (#[trigger] results@[k])@ == probed(
                asked,
                told,
                k,
            ) by {
                if k < from {
                    assert(results@[k] == before[k]);
                } else {
                    assert(results@[k] == piece[k - from]);
                    assert(views(piece)[k - from] == piece[k - from]@);
                }
            }
        }
        chunk += 1;
    }
    assert(views(results@) =~= Seq::new(requests@.len(), |k: int| probed(asked, told, k)));
    results
}

/// Each question gets its own finding, whatever came of the requests.
pub proof fn findings_follow_the_questions(
    requests: Seq<RequestView>,
    answers: Seq<Result<Json, Seq<Seq<char>>>>,
    k: int,
)
    requires
        0 <= k < requests.len(),
    ensures
        probed(requests, answers, k).branch == requests[k].branch,
{
}

/// A number behind a name tells it from the same name with another number.
proof fn numbers_differ(name: Seq<char>, i: nat, j: nat)
    requires
        numbered(name, i) == numbered(name, j),
    ensures
        i == j,
{
    decimal_reads_back(i);
    decimal_reads_back(j);
    assert(numbered(name, i).skip(name.len() as int) =~= decimal(i));
    assert(numbered(name, j).skip(name.len() as int) =~= decimal(j));
}

/// The variables of each question hold its branch and its commit.
pub proof fn variables_hold_the_questions(requests: Seq<RequestView>, i: int)
    requires
        0 <= i < requests.len(),
    ensures
        compare_values(requests).contains_pair(numbered("branch"@, i as nat), requests[i].branch),
        compare_values(requests).contains_pair(numbered("commit"@, i as nat), requests[i].commit_sha),
    decreases requests.len(),
{
    let last = (requests.len() - 1) as nat;
    reveal_strlit("branch");
    reveal_strlit("commit");
    assert(numbered("branch"@, i as nat)[0] == 'b');
    assert(numbered("branch"@, last)[0] == 'b');
    assert(numbered("commit"@, i as nat)[0] == 'c');
    assert(numbered("commit"@, last)[0] == 'c');
    if i < last {
        variables_hold_the_questions(requests.drop_last(), i);
        if numbered("branch"@, i as nat) == numbered("branch"@, last) {
            numbers_differ("branch"@, i as nat, last);
        }
        if numbered("commit"@, i as nat) == numbered("commit"@, last) {
            numbers_differ("commit"@, i as nat, last);
        }
    }
}

/// Whether `key` is one of the two variables of question `i`.
pub open spec fn belongs_to(requests: Seq<RequestView>, key: Seq<char>, i: int) -> bool {
    0 <= i < requests.len() && (key == numbered("branch"@, i as nat) || key == numbered("commit"@, i as nat))
}

/// A variable that has a value belongs to one of the questions.
proof fn variables_belong_to_questions(requests: Seq<RequestView>, key: Seq<char>)
    requires
        compare_values(requests).dom().contains(key),
    ensures
        exists|i: int| belongs_to(requests, key, i),
    decreases requests.len(),
{
    let last = requests.len() - 1;
    if belongs_to(requests, key, last) {
    } else {
        variables_belong_to_questions(requests.drop_last(), key);
        let i = choose|i: int| belongs_to(requests.drop_last(), key, i);
        assert(belongs_to(requests, key, i));
    }
}

/// A variable of a question has a value.
proof fn variables_have_values(requests: Seq<RequestView>, key: Seq<char>, i: int)
    requires
        belongs_to(requests, key, i),
    ensures
        compare_values(requests).dom().contains(key),
{
    variables_hold_the_questions(requests, i);
}

/// The variables of one question are not those of an earlier one.
proof fn variables_are_apart(requests: Seq<RequestView>, i: int, j: int)
    requires
        0 <= i < j,
    ensures
        !belongs_to(requests, numbered("branch"@, j as nat), i),
        !belongs_to(requests, numbered("commit"@, j as nat), i),
{
    reveal_strlit("branch");
    reveal_strlit("commit");
    assert(numbered("branch"@, i as nat)[0] == 'b');
    assert(numbered("commit"@, i as nat)[0] == 'c');
    assert(numbered("branch"@, j as nat)[0] == 'b');
    assert(numbered("commit"@, j as nat)[0] == 'c');
    if numbered("branch"@, j as nat) == numbered("branch"@, i as nat) {
        numbers_differ("branch"@, j as nat, i as nat);
    }
    if numbered("commit"@, j as nat) == numbered("commit"@, i as nat) {
        numbers_differ("commit"@, j as nat, i as nat);
    }
}

/// The variables of the last question have no value before it is asked.
proof fn last_variables_are_new(requests: Seq<RequestView>)
    requires
        requests.len() > 0,
    ensures
        !compare_values(requests.drop_last()).dom().contains(numbered("branch"@, (requests.len() - 1) as nat)),
        !compare_values(requests.drop_last()).dom().contains(numbered("commit"@, (requests.len() - 1) as nat)),
{
    let before = requests.drop_last();
    let last = requests.len() - 1;
    let branch = numbered("branch"@, last as nat);
    let commit = numbered("commit"@, last as nat);
    if compare_values(before).dom().contains(branch) {
        variables_belong_to_questions(before, branch);
        let i = choose|i: int| belongs_to(before, branch, i);
        variables_are_apart(before, i, last);
    }
    if compare_values(before).dom().contains(commit) {
        variables_belong_to_questions(before, commit);
        let i = choose|i: int| belongs_to(before, commit, i);
        variables_are_apart(before, i, last);
    }
}

/// Each question takes two variables.
proof fn variables_are_counted(requests: Seq<RequestView>)
    ensures
        compare_values(requests).dom().finite(),
        compare_values(requests).dom().len() == 2 * requests.len(),
    decreases requests.len(),
{
    if requests.len() > 0 {
        let before = requests.drop_last();
        let last = (requests.len() - 1) as nat;
        let branch = numbered("branch"@, last);
        let commit = numbered("commit"@, last);
        variables_are_counted(before);
        last_variables_are_new(requests);
        assert(branch != commit) by {
            reveal_strlit("branch");
            reveal_strlit("commit");
            assert(branch[0] == 'b');
            assert(commit[0] == 'c');
        }
        assert(compare_values(requests).dom() =~= compare_values(before).dom().insert(branch).insert(commit));
    }
}

/// Each question takes two variables, its branch and its commit, and there
/// are no others.
pub proof fn questions_take_two_variables_each(requests: Seq<RequestView>)
    ensures
        compare_values(requests).dom().finite(),
        compare_values(requests).dom().len() == 2 * requests.len(),
        forall|key: Seq<char>|
            #![trigger compare_values(requests).dom().contains(key)]
            compare_values(requests).dom().contains(key) <==> exists|i: int| belongs_to(requests, key, i),
{
    variables_are_counted(requests);
    assert forall|key: Seq<char>|
        #![trigger compare_values(requests).dom().contains(key)]
        compare_values(requests).dom().contains(key) <==> exists|i: int| belongs_to(requests, key, i) by {
        if compare_values(requests).dom().contains(key) {
            variables_belong_to_questions(requests, key);
        }
        if exists|i: int| belongs_to(requests, key, i) {
            variables_have_values(requests, key, choose|i: int| belongs_to(requests, key, i));
        }
    }
}

/// No branch and no commit is part of the text of a request: it is the same
/// for any two lists of questions of the same length.
pub proof fn text_holds_no_values(a: Seq<RequestView>, b: Seq<RequestView>)
    requires
        a.len() == b.len(),
    ensures
        compare_text(a.len()) == compare_text(b.len()),
{
}

/// How many groups of requests `count` questions take.
pub open spec fn group_count(count: int) -> int {
    (count + 39) / 40
}

/// How many requests group `g` has.
pub open spec fn chunk_count(count: int, g: int) -> int {
    (least(40, count - 40 * g) + 9) / 10
}

/// The first question of request `c` of group `g`.
pub open spec fn chunk_start(g: int, c: int) -> int {
    40 * g + 10 * c
}

/// The question behind the last one of request `c` of group `g`.
pub open spec fn chunk_end(count: int, g: int, c: int) -> int {
    least(chunk_start(g, c) + 10, count)
}

/// The requests of one group: for each, its first question and the one
/// behind its last.
fn plan_group(count: usize, start: usize, Ghost(g): Ghost<int>) -> (r: Vec<(usize, usize)>)
    requires
        start == 40 * g < count,
    ensures
        r@.len() == chunk_count(count as int, g),
        forall|c: int|
            0 <= c < r@.len() ==> (#[trigger] r@[c]).0 == chunk_start(g, c) && r@[c].1 == chunk_end(
                count as int,
                g,
                c,
            ),
{
    let size: usize = if count - start > COMPARE_CHUNK_SIZE * MAX_PARALLEL_COMPARE_CHUNKS {
        COMPARE_CHUNK_SIZE * MAX_PARALLEL_COMPARE_CHUNKS
    } else {
        count - start
    };
    let mut chunks: Vec<(usize, usize)> = Vec::new();
    let mut done: usize = 0;
    while done < size
        invariant
            done == 10 * chunks@.len() || done == size,
            done <= size == least(40, count - 40 * g),
            start == 40 * g < count,
            done == size ==> chunks@.len() == chunk_count(count as int, g),
            forall|c: int|
                0 <= c < chunks@.len() ==> (#[trigger] chunks@[c]).0 == chunk_start(g, c) && chunks@[c].1
                    == chunk_end(count as int, g, c),
        decreases size - done,
    {
        let step: usize = if size - done > COMPARE_CHUNK_SIZE {
            COMPARE_CHUNK_SIZE
        } else {
            size - done
        };
        chunks.push((start + done, start + done + step));
        done += step;
    }
    chunks
}

/// How to ask `count` questions: in groups, one after another, of requests
/// that are made at the same time.
pub fn probe_plan(count: usize) -> (r: Vec<Vec<(usize, usize)>>)
    ensures
        r@.len() == group_count(count as int),
        forall|g: int| 0 <= g < r@.len() ==> (#[trigger] r@[g])@.len() == chunk_count(count as int, g),
        forall|g: int, c: int|
            0 <= g < r@.len() && 0 <= c < r@[g]@.len() ==> (#[trigger] r@[g]@[c]).0 == chunk_start(g, c)
                && r@[g]@[c].1 == chunk_end(count as int, g, c),
{
    let mut groups: Vec<Vec<(usize, usize)>> = Vec::new();
    let mut start: usize = 0;
    while start < count
        invariant
            start <= count,
            start < count ==> start == 40 * groups@.len(),
            start == count ==> groups@.len() == group_count(count as int),
            forall|g: int|
                0 <= g < groups@.len() ==> (#[trigger] groups@[g])@.len() == chunk_count(count as int, g),
            forall|g: int, c: int|
                0 <= g < groups@.len() && 0 <= c < groups@[g]@.len() ==> (#[trigger] groups@[g]@[c]).0
                    == chunk_start(g, c) && groups@[g]@[c].1 == chunk_end(count as int, g, c),
        decreases count - start,
    {
        let group = plan_group(count, start, Ghost(groups@.len() as int));
        groups.push(group);
        if count - start > COMPARE_CHUNK_SIZE * MAX_PARALLEL_COMPARE_CHUNKS {
            start += COMPARE_CHUNK_SIZE * MAX_PARALLEL_COMPARE_CHUNKS;
        } else {
            start = count;
        }
    }
    groups
}

/// The requests, in order, take up each question once: the first begins with
/// the first question, each other one where the one before it ended, and the
/// last ends with the last question. No request is empty, none holds more
/// than ten questions, and no group more than four requests. So request `k` in
/// all is the one that `probe` wants answer `k` of.
pub proof fn requests_tile_the_questions(count: int, g: int, c: int)
    requires
        0 <= g < group_count(count),
        0 <= c < chunk_count(count, g),
    ensures
        chunk_start(0, 0) == 0,
        chunk_start(g, c) == 10 * (4 * g + c),
        c + 1 == chunk_count(count, g) && g + 1 == group_count(count) ==> 4 * g + c + 1 == (count + 9) / 10,
        0 < chunk_end(count, g, c) - chunk_start(g, c) <= 10,
        chunk_count(count, g) <= 4,
        c + 1 < chunk_count(count, g) ==> chunk_start(g, c + 1) == chunk_end(count, g, c),
        c + 1 == chunk_count(count, g) && g + 1 < group_count(count) ==> chunk_start(g + 1, 0) == chunk_end(
            count,
            g,
            c,
        ),
        c + 1 == chunk_count(count, g) && g + 1 == group_count(count) ==> chunk_end(count, g, c) == count,
{
}

/// Each finding says what the answer to its own request says to its own
/// question, of ten in a request; where the request came to nothing, it says
/// why, with all causes.
pub proof fn finding_says_what_the_answer_says(
    requests: Seq<RequestView>,
    answers: Seq<Result<Json, Seq<Seq<char>>>>,
    k: int,
)
    requires
        0 <= k < requests.len(),
    ensures
        probed(requests, answers, k).branch == requests[k].branch,
        match answers[k / 10] {
            Ok(data) => match data.member("repository"@) {
                Some(repository) => probed(requests, answers, k).status == answer_to(repository, (k % 10) as nat),
                None => probed(requests, answers, k).status == StatusView::Unknown(
                    "GitHub GraphQL response missing repository"@,
                ),
            },
            Err(causes) => probed(requests, answers, k).status matches StatusView::Unknown(reason)
                && forall|i: int| 0 <= i < causes.len() ==> holds(reason, #[trigger] causes[i]),
        },
{
    if let Err(causes) = answers[k / 10] {
        assert forall|i: int| 0 <= i < causes.len() implies holds(
            joined(causes, ": "@),
            #[trigger] causes[i],
        ) by {
            joined_holds_its_parts(causes, ": "@, i);
        }
    }
}

/// The answer to a question is the status that stands in the answer under its
/// alias, and no other; where none stands there, the question is open.
pub proof fn answer_stands_under_its_alias(repository: Json, index: nat)
    ensures
        match repository.member("branch"@ + decimal(index)) {
            Some(branch) => match branch.member("compare"@) {
                Some(compare) => match compare.member("status"@) {
                    Some(Json::Text(status)) => answer_to(repository, index) == compared(status@),
                    _ => answer_to(repository, index) == StatusView::Unknown("comparison unavailable"@),
                },
                None => answer_to(repository, index) == StatusView::Unknown("comparison unavailable"@),
            },
            None => answer_to(repository, index) == StatusView::Unknown("comparison unavailable"@),
        },
{
}

/// A branch holds a commit that is behind it or identical to it, and no other;
/// it lacks one that is ahead of it or has diverged from it; and of any other
/// status nothing is claimed but the status itself.
pub proof fn comparison_says_who_is_behind(status: Seq<char>)
    ensures
        compared(status) is Contains <==> status == "BEHIND"@ || status == "IDENTICAL"@,
        compared(status) is Missing <==> status == "AHEAD"@ || status == "DIVERGED"@,
        compared(status) matches StatusView::Unknown(reason) ==> reason.len() >= status.len() && reason.skip(
            reason.len() - status.len(),
        ) == status,
{
    reveal_strlit("BEHIND");
    reveal_strlit("IDENTICAL");
    reveal_strlit("AHEAD");
    reveal_strlit("DIVERGED");
    assert("BEHIND"@.len() == 6 && "IDENTICAL"@.len() == 9 && "AHEAD"@.len() == 5 && "DIVERGED"@.len() == 8);
    if let StatusView::Unknown(reason) = compared(status) {
        assert(reason.skip(reason.len() - status.len()) =~= status);
    }
}

/// No two questions of a request have an alias or a variable in common.
pub proof fn aliases_differ(i: nat, j: nat)
    requires
        i != j,
    ensures
        numbered("branch"@, i) != numbered("branch"@, j),
        numbered("commit"@, i) != numbered("commit"@, j),
        numbered("branch"@, i) != numbered("commit"@, j),
{
    reveal_strlit("branch");
    reveal_strlit("commit");
    assert(numbered("branch"@, i)[0] == 'b');
    assert(numbered("commit"@, j)[0] == 'c');
    if numbered("branch"@, i) == numbered("branch"@, j) {
        numbers_differ("branch"@, i, j);
    }
    if numbered("commit"@, i) == numbered("commit"@, j) {
        numbers_differ("commit"@, i, j);
    }
}

/// A question comes back under its alias, asks for its own branch and compares
/// it with its own commit, and both variables are declared as texts.
pub proof fn question_uses_its_own_variables(index: nat)
    ensures
        has_prefix(field(index), numbered("branch"@, index) + ": ref(qualifiedName: $"@),
        holds(field(index), "(qualifiedName: $"@ + numbered("branch"@, index) + ")"@),
        holds(field(index), "compare(headRef: $"@ + numbered("commit"@, index) + ") { status }"@),
        holds(definition(index), "$"@ + numbered("branch"@, index) + ": String!"@),
        holds(definition(index), "$"@ + numbered("commit"@, index) + ": String!"@),
{
    reveal_strlit(": ref(qualifiedName: $");
    reveal_strlit("(qualifiedName: $");
    reveal_strlit(") { compare(headRef: $");
    reveal_strlit("compare(headRef: $");
    reveal_strlit(") { status } }");
    reveal_strlit(") { status }");
    reveal_strlit(")");
    reveal_strlit("$");
    reveal_strlit(": String!, $");
    reveal_strlit(": String!");
    let b = numbered("branch"@, index);
    let c = numbered("commit"@, index);
    let f = field(index);
    let d = definition(index);
    let n = b.len() as int;
    let m = c.len() as int;
    let head = b + ": ref(qualifiedName: $"@;
    assert(f.take(head.len() as int) =~= head);
    let named = "(qualifiedName: $"@ + b + ")"@;
    assert(f.subrange(n + 5, n + 5 + named.len()) =~= named);
    let compared_with = "compare(headRef: $"@ + c + ") { status }"@;
    let at = n + 22 + n + 4;
    assert(f.subrange(at, at + compared_with.len()) =~= compared_with);
    let first = "$"@ + b + ": String!"@;
    assert(d.subrange(0, 0 + first.len() as int) =~= first);
    assert(holds(d, first));
    let second = "$"@ + c + ": String!"@;
    let there = first.len() as int + 2;
    assert(d.subrange(there, there + second.len()) =~= second);
}

/// A request declares the variables of every one of its questions, and asks
/// every one of them.
pub proof fn request_asks_every_question(count: nat, i: nat)
    requires
        i < count,
    ensures
        holds(compare_text(count), definition(i)),
        holds(compare_text(count), field(i)),
        holds(compare_text(count), "repository(owner: \"NixOS\", name: \"nixpkgs\")"@),
{
    let definitions = Seq::new(count, |j: int| definition(j as nat));
    let fields = Seq::new(count, |j: int| field(j as nat));
    joined_holds_its_parts(definitions, ", "@, i as int);
    joined_holds_its_parts(fields, "\n"@, i as int);
    let d = joined(definitions, ", "@);
    let f = joined(fields, "\n"@);
    let middle = ") { repository(owner: \"NixOS\", name: \"nixpkgs\") { "@;
    let all = compare_text(count);
    holds_in_the_middle("query("@, d, middle + f + " } }"@, definition(i));
    assert("query("@ + d + (middle + f + " } }"@) =~= all);
    holds_in_the_middle("query("@ + d + middle, f, " } }"@, field(i));
    assert("query("@ + d + middle + f + " } }"@ =~= all);
    let repository = "repository(owner: \"NixOS\", name: \"nixpkgs\")"@;
    reveal_strlit(") { repository(owner: \"NixOS\", name: \"nixpkgs\") { ");
    reveal_strlit("repository(owner: \"NixOS\", name: \"nixpkgs\")");
    let at = ("query("@ + d).len() as int + 4;
    assert(all.subrange(at, at + repository.len()) =~= repository);
}

/// What is told of an answer is the answer itself, and of its absence all
/// causes, in order; and so it is for each of several answers.
pub proof fn every_cause_is_told(answers: Seq<Result<Json, Vec<String>>>, i: int, k: int)
    requires
        0 <= i < answers.len(),
    ensures
        answer_views(answers).len() == answers.len(),
        match answers[i] {
            Ok(data) => answer_views(answers)[i] == Ok::<Json, Seq<Seq<char>>>(data),
            Err(causes) => answer_views(answers)[i] matches Err(told) && told.len() == causes@.len() && (0 <= k
                < causes@.len() ==> told[k] == causes@[k]@),
        },
        answer_view(answers[i]) == answer_views(answers)[i],
{
}

} // verus!
