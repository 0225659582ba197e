//! The typed result model a response decodes into.
//!
//! Timestamps and sample values are kept as the text the wire carried:
//! the numeric lexeme for an epoch, the validated floating point text or
//! a sentinel marker for a sample value, the RFC 3339 text for a scrape
//! time and the URL text for an address.  Each type has a mathematical
//! view over sequences and maps; the decoding contracts speak in those.

use vstd::prelude::*;

use crate::string_map::StringMap;

verus! {

/// The views of a sequence's elements, in order.
pub open spec fn views_of<T: View>(s: Seq<T>) -> Seq<T::V> {
    s.map_values(|x: T| x@)
}

/// The top-level envelope: success or error, by the explicit status tag.
#[derive(Debug, PartialEq)]
pub enum ApiResult {
    ApiOk(ApiOk),
    ApiErr(ApiErr),
}

/// A success envelope: an optional payload and any warnings.
#[derive(Debug, PartialEq)]
pub struct ApiOk {
    pub data: Option<Data>,
    pub warnings: Vec<String>,
}

/// An error envelope: the error's type and message, an optional partial
/// payload and any warnings.
#[derive(Debug, PartialEq)]
pub struct ApiErr {
    pub error_type: String,
    pub error_message: String,
    pub data: Option<Data>,
    pub warnings: Vec<String>,
}

/// The payload of an envelope.  The wire gives no discriminator: the
/// variant is inferred by ordered trial decoding, and the flag map, which
/// any string-to-string object matches, is tried last.
#[derive(Debug, PartialEq)]
pub enum Data {
    Expression(Expression),
    Series(Series),
    LabelsOrValues(LabelsOrValues),
    Targets(Targets),
    Rules(Rules),
    Alerts(Alerts),
    AlertManagers(AlertManagers),
    Config(Config),
    Snapshot(Snapshot),
    Flags(StringMap),
}

/// An expression evaluation result, keyed by the explicit result type tag.
#[derive(Debug, PartialEq)]
pub enum Expression {
    Scalar(Sample),
    StringResult(StringSample),
    InstantVector(Vec<Instant>),
    RangeMatrix(Vec<Range>),
}

/// One series' sample at a single instant.
#[derive(Debug, PartialEq)]
pub struct Instant {
    pub metric: Metric,
    pub sample: Sample,
}

/// One series' samples over a range.
#[derive(Debug, PartialEq)]
pub struct Range {
    pub metric: Metric,
    pub samples: Vec<Sample>,
}

/// A series' label set.
#[derive(Debug, PartialEq)]
pub struct Metric {
    pub labels: StringMap,
}

/// A sample value: a sentinel for the non-finite values, or validated
/// floating point text kept verbatim.
#[derive(Debug, PartialEq)]
pub enum SampleValue {
    PosInfinity,
    NegInfinity,
    NotANumber,
    Finite(String),
}

/// A (timestamp, value) pair; the wire form is the two-element array
/// `[epoch, value text]`.
#[derive(Debug, PartialEq)]
pub struct Sample {
    /// The epoch's numeric lexeme, kept verbatim.
    pub epoch: String,
    pub value: SampleValue,
}

/// The same positional pair with the value taken verbatim as a string.
#[derive(Debug, PartialEq)]
pub struct StringSample {
    pub epoch: String,
    pub value: String,
}

/// A series listing: one label set per series.
#[derive(Debug, PartialEq)]
pub struct Series(pub Vec<Metric>);

/// A flat listing of label names or label values.
#[derive(Debug, PartialEq)]
pub struct LabelsOrValues(pub Vec<String>);

/// The scrape targets, active and dropped.
#[derive(Debug, PartialEq)]
pub struct Targets {
    pub active: Vec<ActiveTarget>,
    pub dropped: Vec<DroppedTarget>,
}

/// An actively scraped target.
#[derive(Debug, PartialEq)]
pub struct ActiveTarget {
    pub discovered_labels: StringMap,
    pub labels: StringMap,
    /// The scrape address; text the URL checker accepted.
    pub scrape_url: String,
    /// Absent when the wire carried the empty string.
    pub last_error: Option<String>,
    /// RFC 3339 text, kept verbatim.
    pub last_scrape: String,
    pub health: TargetHealth,
}

/// A target's health; unrecognized wire tokens decode leniently to
/// `Unknown`.
#[derive(Debug, PartialEq, Clone, Copy)]
pub enum TargetHealth {
    Up,
    Down,
    Unknown,
}

/// A target dropped during relabelling.
#[derive(Debug, PartialEq)]
pub struct DroppedTarget {
    pub discovered_labels: StringMap,
}

/// The alert managers, active and dropped.
#[derive(Debug, PartialEq)]
pub struct AlertManagers {
    pub active: Vec<AlertManager>,
    pub dropped: Vec<AlertManager>,
}

/// One alert manager endpoint.
#[derive(Debug, PartialEq)]
pub struct AlertManager {
    /// Text the URL checker accepted.
    pub url: String,
}

/// The name of a taken snapshot.
#[derive(Debug, PartialEq)]
pub struct Snapshot {
    pub name: String,
}

/// The loaded configuration file's text.
#[derive(Debug, PartialEq)]
pub struct Config {
    pub yaml: String,
}

/// An alert's state; an unrecognized wire token is a hard error, unlike
/// target health.
#[derive(Debug, PartialEq, Clone, Copy)]
pub enum AlertState {
    INACTIVE,
    PENDING,
    FIRING,
}

/// The rule groups listing.
#[derive(Debug, PartialEq)]
pub struct Rules {
    pub groups: Vec<RuleGroups>,
}

/// One group of rules from one rule file.
#[derive(Debug, PartialEq)]
pub struct RuleGroups {
    pub rules: Vec<Rule>,
    pub file: String,
    pub interval: i64,
    pub name: String,
}

/// A rule's kind; any other wire token is a hard error.
#[derive(Debug, PartialEq, Clone, Copy)]
pub enum RuleType {
    RECORDING,
    ALERTING,
}

/// A recording or alerting rule.
#[derive(Debug, PartialEq)]
pub struct Rule {
    pub alerts: Option<Vec<Alert>>,
    pub annotations: Option<StringMap>,
    pub duration: Option<i64>,
    pub labels: Option<StringMap>,
    pub health: String,
    pub name: String,
    pub query: String,
    pub rule_type: RuleType,
}

/// One firing or pending alert instance.
#[derive(Debug, PartialEq)]
pub struct Alert {
    /// Empty when the wire omitted it.
    pub active_at: String,
    pub annotations: Option<StringMap>,
    pub labels: Option<StringMap>,
    pub state: AlertState,
    pub value: String,
}

/// The alerts listing.
#[derive(Debug, PartialEq)]
pub struct Alerts {
    pub alerts: Vec<Alert>,
}

// The mathematical shapes of the model types.

pub enum ApiResultV {
    ApiOk(ApiOkV),
    ApiErr(ApiErrV),
}

pub struct ApiOkV {
    pub data: Option<DataV>,
    pub warnings: Seq<Seq<char>>,
}

pub struct ApiErrV {
    pub error_type: Seq<char>,
    pub error_message: Seq<char>,
    pub data: Option<DataV>,
    pub warnings: Seq<Seq<char>>,
}

pub enum DataV {
    Expression(ExpressionV),
    Series(Seq<Map<Seq<char>, Seq<char>>>),
    LabelsOrValues(Seq<Seq<char>>),
    Targets(TargetsV),
    Rules(RulesV),
    Alerts(Seq<AlertV>),
    AlertManagers(AlertManagersV),
    Config(Seq<char>),
    Snapshot(Seq<char>),
    Flags(Map<Seq<char>, Seq<char>>),
}

pub enum ExpressionV {
    Scalar(SampleV),
    StringResult(StringSampleV),
    InstantVector(Seq<InstantV>),
    RangeMatrix(Seq<RangeV>),
}

pub struct InstantV {
    pub metric: Map<Seq<char>, Seq<char>>,
    pub sample: SampleV,
}

pub struct RangeV {
    pub metric: Map<Seq<char>, Seq<char>>,
    pub samples: Seq<SampleV>,
}

pub enum SampleValueV {
    PosInfinity,
    NegInfinity,
    NotANumber,
    Finite(Seq<char>),
}

pub struct SampleV {
    pub epoch: Seq<char>,
    pub value: SampleValueV,
}

pub struct StringSampleV {
    pub epoch: Seq<char>,
    pub value: Seq<char>,
}

pub struct TargetsV {
    pub active: Seq<ActiveTargetV>,
    pub dropped: Seq<Map<Seq<char>, Seq<char>>>,
}

pub struct ActiveTargetV {
    pub discovered_labels: Map<Seq<char>, Seq<char>>,
    pub labels: Map<Seq<char>, Seq<char>>,
    pub scrape_url: Seq<char>,
    pub last_error: Option<Seq<char>>,
    pub last_scrape: Seq<char>,
    pub health: TargetHealth,
}

pub struct AlertManagersV {
    pub active: Seq<Seq<char>>,
    pub dropped: Seq<Seq<char>>,
}

pub struct RulesV {
    pub groups: Seq<RuleGroupsV>,
}

pub struct RuleGroupsV {
    pub rules: Seq<RuleV>,
    pub file: Seq<char>,
    pub interval: i64,
    pub name: Seq<char>,
}

pub struct RuleV {
    pub alerts: Option<Seq<AlertV>>,
    pub annotations: Option<Map<Seq<char>, Seq<char>>>,
    pub duration: Option<i64>,
    pub labels: Option<Map<Seq<char>, Seq<char>>>,
    pub health: Seq<char>,
    pub name: Seq<char>,
    pub query: Seq<char>,
    pub rule_type: RuleType,
}

pub struct AlertV {
    pub active_at: Seq<char>,
    pub annotations: Option<Map<Seq<char>, Seq<char>>>,
    pub labels: Option<Map<Seq<char>, Seq<char>>>,
    pub state: AlertState,
    pub value: Seq<char>,
}

impl View for Metric {
    type V = Map<Seq<char>, Seq<char>>;

    open spec fn view(&self) -> Map<Seq<char>, Seq<char>> {
        self.labels@
    }
}

impl View for SampleValue {
    type V = SampleValueV;

    open spec fn view(&self) -> SampleValueV {
        match self {
            SampleValue::PosInfinity => SampleValueV::PosInfinity,
            SampleValue::NegInfinity => SampleValueV::NegInfinity,
            SampleValue::NotANumber => SampleValueV::NotANumber,
            SampleValue::Finite(s) => SampleValueV::Finite(s@),
        }
    }
}

impl View for Sample {
    type V = SampleV;

    open spec fn view(&self) -> SampleV {
        SampleV { epoch: self.epoch@, value: self.value@ }
    }
}

impl View for StringSample {
    type V = StringSampleV;

    open spec fn view(&self) -> StringSampleV {
        StringSampleV { epoch: self.epoch@, value: self.value@ }
    }
}

impl View for Instant {
    type V = InstantV;

    open spec fn view(&self) -> InstantV {
        InstantV { metric: self.metric@, sample: self.sample@ }
    }
}

impl View for Range {
    type V = RangeV;

    open spec fn view(&self) -> RangeV {
        RangeV { metric: self.metric@, samples: views_of(self.samples@) }
    }
}

impl View for Expression {
    type V = ExpressionV;

    open spec fn view(&self) -> ExpressionV {
        match self {
            Expression::Scalar(s) => ExpressionV::Scalar(s@),
            Expression::StringResult(s) => ExpressionV::StringResult(s@),
            Expression::InstantVector(v) => ExpressionV::InstantVector(views_of(v@)),
            Expression::RangeMatrix(v) => ExpressionV::RangeMatrix(views_of(v@)),
        }
    }
}

impl View for Series {
    type V = Seq<Map<Seq<char>, Seq<char>>>;

    open spec fn view(&self) -> Seq<Map<Seq<char>, Seq<char>>> {
        views_of(self.0@)
    }
}

impl View for LabelsOrValues {
    type V = Seq<Seq<char>>;

    open spec fn view(&self) -> Seq<Seq<char>> {
        views_of(self.0@)
    }
}

impl View for ActiveTarget {
    type V = ActiveTargetV;

    open spec fn view(&self) -> ActiveTargetV {
        ActiveTargetV {
            discovered_labels: self.discovered_labels@,
            labels: self.labels@,
            scrape_url: self.scrape_url@,
            last_error: match &self.last_error {
                Some(s) => Some(s@),
                None => None,
            },
            last_scrape: self.last_scrape@,
            health: self.health,
        }
    }
}

impl View for DroppedTarget {
    type V = Map<Seq<char>, Seq<char>>;

    open spec fn view(&self) -> Map<Seq<char>, Seq<char>> {
        self.discovered_labels@
    }
}

impl View for Targets {
    type V = TargetsV;

    open spec fn view(&self) -> TargetsV {
        TargetsV { active: views_of(self.active@), dropped: views_of(self.dropped@) }
    }
}

impl View for AlertManager {
    type V = Seq<char>;

    open spec fn view(&self) -> Seq<char> {
        self.url@
    }
}

impl View for AlertManagers {
    type V = AlertManagersV;

    open spec fn view(&self) -> AlertManagersV {
        AlertManagersV { active: views_of(self.active@), dropped: views_of(self.dropped@) }
    }
}

impl View for Alert {
    type V = AlertV;

    open spec fn view(&self) -> AlertV {
        AlertV {
            active_at: self.active_at@,
            annotations: match &self.annotations {
                Some(m) => Some(m@),
                None => None,
            },
            labels: match &self.labels {
                Some(m) => Some(m@),
                None => None,
            },
            state: self.state,
            value: self.value@,
        }
    }
}

impl View for Rule {
    type V = RuleV;

    open spec fn view(&self) -> RuleV {
        RuleV {
            alerts: match &self.alerts {
                Some(v) => Some(views_of(v@)),
                None => None,
            },
            annotations: match &self.annotations {
                Some(m) => Some(m@),
                None => None,
            },
            duration: self.duration,
            labels: match &self.labels {
                Some(m) => Some(m@),
                None => None,
            },
            health: self.health@,
            name: self.name@,
            query: self.query@,
            rule_type: self.rule_type,
        }
    }
}

impl View for RuleGroups {
    type V = RuleGroupsV;

    open spec fn view(&self) -> RuleGroupsV {
        RuleGroupsV {
            rules: views_of(self.rules@),
            file: self.file@,
            interval: self.interval,
            name: self.name@,
        }
    }
}

impl View for Rules {
    type V = RulesV;

    open spec fn view(&self) -> RulesV {
        RulesV { groups: views_of(self.groups@) }
    }
}

impl View for Alerts {
    type V = Seq<AlertV>;

    open spec fn view(&self) -> Seq<AlertV> {
        views_of(self.alerts@)
    }
}

impl View for Config {
    type V = Seq<char>;

    open spec fn view(&self) -> Seq<char> {
        self.yaml@
    }
}

impl View for Snapshot {
    type V = Seq<char>;

    open spec fn view(&self) -> Seq<char> {
        self.name@
    }
}

impl View for Data {
    type V = DataV;

    open spec fn view(&self) -> DataV {
        match self {
            Data::Expression(e) => DataV::Expression(e@),
            Data::Series(s) => DataV::Series(s@),
            Data::LabelsOrValues(l) => DataV::LabelsOrValues(l@),
            Data::Targets(t) => DataV::Targets(t@),
            Data::Rules(r) => DataV::Rules(r@),
            Data::Alerts(a) => DataV::Alerts(a@),
            Data::AlertManagers(m) => DataV::AlertManagers(m@),
            Data::Config(c) => DataV::Config(c@),
            Data::Snapshot(s) => DataV::Snapshot(s@),
            Data::Flags(f) => DataV::Flags(f@),
        }
    }
}

impl View for ApiOk {
    type V = ApiOkV;

    open spec fn view(&self) -> ApiOkV {
        ApiOkV {
            data: match &self.data {
                Some(d) => Some(d@),
                None => None,
            },
            warnings: views_of(self.warnings@),
        }
    }
}

impl View for ApiErr {
    type V = ApiErrV;

    open spec fn view(&self) -> ApiErrV {
        ApiErrV {
            error_type: self.error_type@,
            error_message: self.error_message@,
            data: match &self.data {
                Some(d) => Some(d@),
                None => None,
            },
            warnings: views_of(self.warnings@),
        }
    }
}

impl View for ApiResult {
    type V = ApiResultV;

    open spec fn view(&self) -> ApiResultV {
        match self {
            ApiResult::ApiOk(o) => ApiResultV::ApiOk(o@),
            ApiResult::ApiErr(e) => ApiResultV::ApiErr(e@),
        }
    }
}

} // verus!
