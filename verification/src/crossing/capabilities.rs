//! The vocabulary of what a run needs: capabilities and where they stand,
//! and where the resolution of a secret got to.

use crate::crossing;
use crate::json;
use crate::json::{Json, JsonView};
use crate::keystore::{Resolved, Secret};
use crate::preflight::{Capability, CapabilityStatus, Standing, StandingView};
use crate::text;
use vstd::prelude::*;

verus! {

/// A row of strings that must be there.
pub open spec fn needed_texts(part: Option<JsonView>) -> Option<Seq<Seq<char>>> {
    match part {
        Some(JsonView::Array(items)) => json::all_texts(items),
        _ => None,
    }
}

pub(crate) fn needed_strings(part: Option<&Json>) -> (r: Option<Vec<String>>)
    ensures
        match r {
            Some(texts) => needed_texts(json::part_view(part)) == Some(text::views(texts@)),
            None => needed_texts(json::part_view(part)) is None,
        },
{
    match part {
        Some(Json::Array(items)) => json::read_texts(items),
        _ => None,
    }
}

/// A row of strings is read back as it was told.
pub(crate) proof fn told_texts_read_back(texts: Seq<Seq<char>>)
    ensures
        needed_texts(Some(json::texts_of(texts))) == Some(texts),
    decreases texts.len(),
{
    let items = json::texts_of(texts)->Array_0;
    if texts.len() == 0 {
        assert(items =~= Seq::empty());
        assert(texts =~= Seq::empty());
    } else {
        told_texts_read_back(texts.drop_last());
        assert(items.drop_last() =~= json::texts_of(texts.drop_last())->Array_0);
        assert(items.last() == JsonView::Text(texts.last()));
        assert(texts.drop_last().push(texts.last()) =~= texts);
    }
}

fn needed_secret(part: Option<&Json>) -> (r: Option<Secret>)
    ensures
        match r {
            Some(secret) => json::needed_text(json::part_view(part)) == Some(secret.bytes()),
            None => json::needed_text(json::part_view(part)) is None,
        },
{
    match json::read_text(part) {
        Some(text) => Some(Secret::from(text)),
        None => None,
    }
}

// ----- a capability -----

/// A [`Capability`] over sequences.
pub enum CapabilityView {
    Git,
    Agent { binary: Seq<char> },
    GithubToken,
}

impl View for Capability {
    type V = CapabilityView;

    open spec fn view(&self) -> CapabilityView {
        match self {
            Capability::Git => CapabilityView::Git,
            Capability::Agent { binary } => CapabilityView::Agent {
                binary: binary@,
            },
            Capability::GithubToken => CapabilityView::GithubToken,
        }
    }
}

/// A capability, as JSON.
pub open spec fn told_capability(capability: CapabilityView) -> JsonView {
    match capability {
        CapabilityView::Git => JsonView::Text("Git"@),
        CapabilityView::Agent { binary } => crossing::variant(
            "Agent"@,
            JsonView::record().with(
                "binary"@,
                JsonView::Text(binary),
            ),
        ),
        CapabilityView::GithubToken => JsonView::Text("GithubToken"@),
    }
}

/// A capability out of JSON, when the value is one.
pub open spec fn capability_of(value: JsonView) -> Option<CapabilityView> {
    if value.word() == Some("Git"@) {
        Some(CapabilityView::Git)
    } else if crossing::carried(value, "Agent"@) is Some {
        let body = crossing::carried(value, "Agent"@)->0;
        let binary = json::needed_text(body.part(0, "binary"@));
        if body.fills(1) && binary is Some {
            Some(
                CapabilityView::Agent { binary: binary->0 },
            )
        } else {
            None
        }
    } else if value.word() == Some("GithubToken"@) {
        Some(CapabilityView::GithubToken)
    } else {
        None
    }
}

/// A capability that must be there.
pub open spec fn read_needed_capability(part: Option<JsonView>) -> Option<CapabilityView> {
    match part {
        Some(value) => capability_of(value),
        None => None,
    }
}

/// A capability that may have been read.
pub open spec fn capability_result(read: Option<Capability>) -> Option<CapabilityView> {
    match read {
        Some(capability) => Some(capability@),
        None => None,
    }
}

fn needed_capability(part: Option<&Json>) -> (r: Option<Capability>)
    ensures
        capability_result(r) == read_needed_capability(json::part_view(part)),
{
    match part {
        Some(value) => Capability::read(value),
        None => None,
    }
}

impl Capability {
    /// A capability, as JSON.
    pub fn told(&self) -> (r: Json)
        ensures
            r@ == told_capability(self@),
    {
        match self {
            Capability::Git => Json::string("Git"),
            Capability::Agent { binary } => Json::record().with(
                "Agent",
                Json::record().with(
                    "binary",
                    Json::string(binary.as_str()),
                ),
            ),
            Capability::GithubToken => Json::string("GithubToken"),
        }
    }

    /// A capability out of JSON, when the value is one.
    pub fn read(value: &Json) -> (r: Option<Capability>)
        ensures
            capability_result(r) == capability_of(value@),
    {
        if crossing::is_word(value, "Git") {
            return Some(Capability::Git);
        }
        if let Some(body) = crossing::content(value, "Agent") {
            if !body.fills(1) {
                return None;
            }
            let binary = match json::read_text(body.part(0, "binary")) {
                Some(binary) => binary,
                None => return None,
            };
            return Some(Capability::Agent { binary });
        }
        if crossing::is_word(value, "GithubToken") {
            return Some(Capability::GithubToken);
        }
        None
    }
}

/// Law: what is told of a capability is read back as it was.
pub proof fn told_capability_reads_back(capability: CapabilityView)
    ensures
        capability_of(told_capability(capability)) == Some(capability),
{
    reveal_strlit("Git");
    reveal_strlit("Agent");
    reveal_strlit("GithubToken");
    reveal_strlit("binary");
    assert("Git"@.len() != "Agent"@.len());
    assert("Git"@.len() != "GithubToken"@.len());
    assert("Agent"@.len() != "GithubToken"@.len());
    match capability {
        CapabilityView::Git => {},
        CapabilityView::Agent { binary } => {
            let record = JsonView::record();
            crossing::put(record, "binary"@, JsonView::Text(binary));
        },
        CapabilityView::GithubToken => {},
    }
}

// ----- a standing -----

/// A standing, as JSON.
pub open spec fn told_standing(standing: StandingView) -> JsonView {
    match standing {
        StandingView::Present { at } => crossing::variant(
            "Present"@,
            JsonView::record().with(
                "at"@,
                JsonView::Text(at),
            ),
        ),
        StandingView::Absent { searched } => crossing::variant(
            "Absent"@,
            JsonView::record().with(
                "searched"@,
                json::texts_of(searched),
            ),
        ),
        StandingView::Unfit { at, reason } => crossing::variant(
            "Unfit"@,
            JsonView::record().with(
                "at"@,
                JsonView::Text(at),
            ).with(
                "reason"@,
                JsonView::Text(reason),
            ),
        ),
    }
}

/// A standing out of JSON, when the value is one.
pub open spec fn standing_of(value: JsonView) -> Option<StandingView> {
    if crossing::carried(value, "Present"@) is Some {
        let body = crossing::carried(value, "Present"@)->0;
        let at = json::needed_text(body.part(0, "at"@));
        if body.fills(1) && at is Some {
            Some(
                StandingView::Present { at: at->0 },
            )
        } else {
            None
        }
    } else if crossing::carried(value, "Absent"@) is Some {
        let body = crossing::carried(value, "Absent"@)->0;
        let searched = needed_texts(body.part(0, "searched"@));
        if body.fills(1) && searched is Some {
            Some(
                StandingView::Absent { searched: searched->0 },
            )
        } else {
            None
        }
    } else if crossing::carried(value, "Unfit"@) is Some {
        let body = crossing::carried(value, "Unfit"@)->0;
        let at = json::needed_text(body.part(0, "at"@));
        let reason = json::needed_text(body.part(1, "reason"@));
        if body.fills(2) && at is Some && reason is Some {
            Some(
                StandingView::Unfit { at: at->0, reason: reason->0 },
            )
        } else {
            None
        }
    } else {
        None
    }
}

/// A standing that must be there.
pub open spec fn read_needed_standing(part: Option<JsonView>) -> Option<StandingView> {
    match part {
        Some(value) => standing_of(value),
        None => None,
    }
}

/// A standing that may have been read.
pub open spec fn standing_result(read: Option<Standing>) -> Option<StandingView> {
    match read {
        Some(standing) => Some(standing@),
        None => None,
    }
}

fn needed_standing(part: Option<&Json>) -> (r: Option<Standing>)
    ensures
        standing_result(r) == read_needed_standing(json::part_view(part)),
{
    match part {
        Some(value) => Standing::read(value),
        None => None,
    }
}

impl Standing {
    /// A standing, as JSON.
    pub fn told(&self) -> (r: Json)
        ensures
            r@ == told_standing(self@),
    {
        match self {
            Standing::Present { at } => Json::record().with(
                "Present",
                Json::record().with(
                    "at",
                    Json::string(at.as_str()),
                ),
            ),
            Standing::Absent { searched } => Json::record().with(
                "Absent",
                Json::record().with(
                    "searched",
                    Json::strings(searched),
                ),
            ),
            Standing::Unfit { at, reason } => Json::record().with(
                "Unfit",
                Json::record().with(
                    "at",
                    Json::string(at.as_str()),
                ).with(
                    "reason",
                    Json::string(reason.as_str()),
                ),
            ),
        }
    }

    /// A standing out of JSON, when the value is one.
    pub fn read(value: &Json) -> (r: Option<Standing>)
        ensures
            standing_result(r) == standing_of(value@),
    {
        if let Some(body) = crossing::content(value, "Present") {
            if !body.fills(1) {
                return None;
            }
            let at = match json::read_text(body.part(0, "at")) {
                Some(at) => at,
                None => return None,
            };
            return Some(Standing::Present { at });
        }
        if let Some(body) = crossing::content(value, "Absent") {
            if !body.fills(1) {
                return None;
            }
            let searched = match needed_strings(body.part(0, "searched")) {
                Some(searched) => searched,
                None => return None,
            };
            return Some(Standing::Absent { searched });
        }
        if let Some(body) = crossing::content(value, "Unfit") {
            if !body.fills(2) {
                return None;
            }
            let at = match json::read_text(body.part(0, "at")) {
                Some(at) => at,
                None => return None,
            };
            let reason = match json::read_text(body.part(1, "reason")) {
                Some(reason) => reason,
                None => return None,
            };
            return Some(Standing::Unfit { at, reason });
        }
        None
    }
}

/// Law: what is told of a standing is read back as it was.
pub proof fn told_standing_reads_back(standing: StandingView)
    ensures
        standing_of(told_standing(standing)) == Some(standing),
{
    reveal_strlit("Present");
    reveal_strlit("Absent");
    reveal_strlit("Unfit");
    reveal_strlit("at");
    reveal_strlit("searched");
    reveal_strlit("reason");
    assert("Present"@.len() != "Absent"@.len());
    assert("Present"@.len() != "Unfit"@.len());
    assert("Absent"@.len() != "Unfit"@.len());
    assert("at"@.len() != "reason"@.len());
    match standing {
        StandingView::Present { at } => {
            let record = JsonView::record();
            crossing::put(record, "at"@, JsonView::Text(at));
        },
        StandingView::Absent { searched } => {
            told_texts_read_back(searched);
            let record = JsonView::record();
            crossing::put(record, "searched"@, json::texts_of(searched));
        },
        StandingView::Unfit { at, reason } => {
            let record = JsonView::record();
            crossing::put(record, "at"@, JsonView::Text(at));
            let record = record.with("at"@, JsonView::Text(at));
            crossing::put(record, "reason"@, JsonView::Text(reason));
        },
    }
}

// ----- a status -----

/// A [`CapabilityStatus`] over sequences.
pub struct CapabilityStatusView {
    pub capability: CapabilityView,
    pub standing: StandingView,
}

impl View for CapabilityStatus {
    type V = CapabilityStatusView;

    open spec fn view(&self) -> CapabilityStatusView {
        CapabilityStatusView {
            capability: self.capability@,
            standing: self.standing@,
        }
    }
}

/// A status, as JSON.
pub open spec fn told_status(status: CapabilityStatusView) -> JsonView {
    JsonView::record().with(
        "capability"@,
        told_capability(status.capability),
    ).with(
        "standing"@,
        told_standing(status.standing),
    )
}

/// A status out of JSON, when the value is one.
pub open spec fn status_of(value: JsonView) -> Option<CapabilityStatusView> {
    let capability = read_needed_capability(value.part(0, "capability"@));
    let standing = read_needed_standing(value.part(1, "standing"@));
    if value.fills(2) && capability is Some && standing is Some {
        Some(
            CapabilityStatusView { capability: capability->0, standing: standing->0 },
        )
    } else {
        None
    }
}

/// A status that may have been read.
pub open spec fn status_result(read: Option<CapabilityStatus>) -> Option<CapabilityStatusView> {
    match read {
        Some(status) => Some(status@),
        None => None,
    }
}

impl CapabilityStatus {
    /// A status, as JSON.
    pub fn told(&self) -> (r: Json)
        ensures
            r@ == told_status(self@),
    {
        Json::record().with(
            "capability",
            self.capability.told(),
        ).with(
            "standing",
            self.standing.told(),
        )
    }

    /// A status out of JSON, when the value is one.
    pub fn read(value: &Json) -> (r: Option<CapabilityStatus>)
        ensures
            status_result(r) == status_of(value@),
    {
        if !value.fills(2) {
            return None;
        }
        let capability = match needed_capability(value.part(0, "capability")) {
            Some(capability) => capability,
            None => return None,
        };
        let standing = match needed_standing(value.part(1, "standing")) {
            Some(standing) => standing,
            None => return None,
        };
        Some(CapabilityStatus { capability, standing })
    }
}

/// Law: what is told of a status is read back as it was.
pub proof fn told_status_reads_back(status: CapabilityStatusView)
    ensures
        status_of(told_status(status)) == Some(status),
{
    reveal_strlit("capability");
    reveal_strlit("standing");
    assert("capability"@.len() != "standing"@.len());
    let record = JsonView::record();
    crossing::put(record, "capability"@, told_capability(status.capability));
    let record = record.with("capability"@, told_capability(status.capability));
    crossing::put(record, "standing"@, told_standing(status.standing));
    told_capability_reads_back(status.capability);
    told_standing_reads_back(status.standing);
}

// ----- a resolution -----

/// A [`Resolved`] over sequences.
pub enum ResolvedView {
    Found(Seq<char>),
    Absent,
    Unreachable(Seq<char>),
}

impl View for Resolved {
    type V = ResolvedView;

    open spec fn view(&self) -> ResolvedView {
        match self {
            Resolved::Found(secret) => ResolvedView::Found(secret.bytes()),
            Resolved::Absent => ResolvedView::Absent,
            Resolved::Unreachable(reason) => ResolvedView::Unreachable(reason@),
        }
    }
}

/// A resolution, as JSON.
pub open spec fn told_resolved(resolved: ResolvedView) -> JsonView {
    match resolved {
        ResolvedView::Found(secret) => crossing::variant("Found"@, JsonView::Text(secret)),
        ResolvedView::Absent => JsonView::Text("Absent"@),
        ResolvedView::Unreachable(reason) => crossing::variant(
            "Unreachable"@,
            JsonView::Text(reason),
        ),
    }
}

/// A resolution out of JSON, when the value is one.
pub open spec fn resolved_of(value: JsonView) -> Option<ResolvedView> {
    if crossing::carried(value, "Found"@) is Some {
        match json::needed_text(crossing::carried(value, "Found"@)) {
            Some(secret) => Some(ResolvedView::Found(secret)),
            None => None,
        }
    } else if value.word() == Some("Absent"@) {
        Some(ResolvedView::Absent)
    } else if crossing::carried(value, "Unreachable"@) is Some {
        match json::needed_text(crossing::carried(value, "Unreachable"@)) {
            Some(reason) => Some(ResolvedView::Unreachable(reason)),
            None => None,
        }
    } else {
        None
    }
}

/// A resolution that may have been read.
pub open spec fn resolved_result(read: Option<Resolved>) -> Option<ResolvedView> {
    match read {
        Some(resolved) => Some(resolved@),
        None => None,
    }
}

impl Resolved {
    /// A resolution, as JSON.
    pub fn told(&self) -> (r: Json)
        ensures
            r@ == told_resolved(self@),
    {
        match self {
            Resolved::Found(secret) => Json::record().with("Found", Json::string(secret.expose())),
            Resolved::Absent => Json::string("Absent"),
            Resolved::Unreachable(reason) => Json::record().with(
                "Unreachable",
                Json::string(reason.as_str()),
            ),
        }
    }

    /// A resolution out of JSON, when the value is one.
    pub fn read(value: &Json) -> (r: Option<Resolved>)
        ensures
            resolved_result(r) == resolved_of(value@),
    {
        let part = crossing::content(value, "Found");
        if part.is_some() {
            return match needed_secret(part) {
                Some(secret) => Some(Resolved::Found(secret)),
                None => None,
            };
        }
        if crossing::is_word(value, "Absent") {
            return Some(Resolved::Absent);
        }
        let part = crossing::content(value, "Unreachable");
        if part.is_some() {
            return match json::read_text(part) {
                Some(reason) => Some(Resolved::Unreachable(reason)),
                None => None,
            };
        }
        None
    }
}

/// Law: what is told of a resolution is read back as it was.
pub proof fn told_resolved_reads_back(resolved: ResolvedView)
    ensures
        resolved_of(told_resolved(resolved)) == Some(resolved),
{
    reveal_strlit("Found");
    reveal_strlit("Absent");
    reveal_strlit("Unreachable");
    assert("Found"@.len() != "Absent"@.len());
    assert("Found"@.len() != "Unreachable"@.len());
    assert("Absent"@.len() != "Unreachable"@.len());
    match resolved {
        ResolvedView::Found(secret) => {},
        ResolvedView::Absent => {},
        ResolvedView::Unreachable(reason) => {},
    }
}
} // verus!
