//! Observations: what a charger reports about itself, decoded from the
//! product updates of the stream.

use crate::api::{date_time_of, ChargerOpMode, UtcDateTime};
use crate::decode::{
    number_field, read_number, read_text, text_field, DeserializeError, DeserializeErrorModel,
};
use crate::double::{is_float_text, Double};
use crate::json::{
    is_plain, is_unescaped, items_plain, items_text, json_text, models, quoted, Json, JsonModel,
};
use crate::signalr::{
    classify, invocation_model, lemma_invocation_text, Message, MessageModel, StreamError,
    StreamErrorModel,
};
use crate::stream::{documents_of, frame_of, Incoming, RECORD_SEPARATOR};
use crate::text::{chars_of, decimal, decimal_string, i64_of_text, parse_i64, push_char};
use vstd::prelude::*;
use vstd::string::StringExecFns;

verus! {

/// The state of the control pilot line between charger and car.
#[derive(Clone, Copy, Debug, PartialEq, Eq, Structural)]
pub enum PilotMode {
    Disconnected,
    Connected,
    Charging,
    NeedsVentilation,
    FaultDetected,
    Unknown,
}

/// The pilot mode that a text names: one of the letters A, B, C, D and F,
/// and `Unknown` for every other text.
pub open spec fn pilot_mode_of(text: Seq<char>) -> PilotMode {
    if text == seq!['A'] {
        PilotMode::Disconnected
    } else if text == seq!['B'] {
        PilotMode::Connected
    } else if text == seq!['C'] {
        PilotMode::Charging
    } else if text == seq!['D'] {
        PilotMode::NeedsVentilation
    } else if text == seq!['F'] {
        PilotMode::FaultDetected
    } else {
        PilotMode::Unknown
    }
}

impl PilotMode {
    /// The letter of the mode as a byte, zero for `Unknown`.
    pub fn code(self) -> (r: u8)
        ensures
            r == match self {
                PilotMode::Disconnected => 65u8,
                PilotMode::Connected => 66u8,
                PilotMode::Charging => 67u8,
                PilotMode::NeedsVentilation => 68u8,
                PilotMode::FaultDetected => 70u8,
                PilotMode::Unknown => 0u8,
            },
    {
        match self {
            PilotMode::Disconnected => 65,
            PilotMode::Connected => 66,
            PilotMode::Charging => 67,
            PilotMode::NeedsVentilation => 68,
            PilotMode::FaultDetected => 70,
            PilotMode::Unknown => 0,
        }
    }
}

impl<'a> From<&'a str> for PilotMode {
    fn from(value: &'a str) -> (r: PilotMode) {
        proof {
            reveal_strlit("A");
            reveal_strlit("B");
            reveal_strlit("C");
            reveal_strlit("D");
            reveal_strlit("F");
            assert("A"@ =~= seq!['A']);
            assert("B"@ =~= seq!['B']);
            assert("C"@ =~= seq!['C']);
            assert("D"@ =~= seq!['D']);
            assert("F"@ =~= seq!['F']);
        }
        if value.eq("A") {
            PilotMode::Disconnected
        } else if value.eq("B") {
            PilotMode::Connected
        } else if value.eq("C") {
            PilotMode::Charging
        } else if value.eq("D") {
            PilotMode::NeedsVentilation
        } else if value.eq("F") {
            PilotMode::FaultDetected
        } else {
            PilotMode::Unknown
        }
    }
}

impl<'a> vstd::std_specs::convert::FromSpecImpl<&'a str> for PilotMode {
    open spec fn obeys_from_spec() -> bool {
        true
    }

    open spec fn from_spec(value: &'a str) -> PilotMode {
        pilot_mode_of(value@)
    }
}

/// How many phases a charger is set to use.
#[derive(Clone, Copy, Debug, PartialEq, Eq, Structural)]
pub enum PhaseMode {
    Ignore,
    Phase1,
    Auto,
    Phase2,
}

impl PhaseMode {
    /// The number that the service uses for this phase mode.
    pub fn code(self) -> (r: u8)
        ensures
            r == match self {
                PhaseMode::Ignore => 0u8,
                PhaseMode::Phase1 => 1u8,
                PhaseMode::Auto => 2u8,
                PhaseMode::Phase2 => 3u8,
            },
    {
        match self {
            PhaseMode::Ignore => 0,
            PhaseMode::Phase1 => 1,
            PhaseMode::Auto => 2,
            PhaseMode::Phase2 => 3,
        }
    }
}

/// One of the input pins of a charger.
#[derive(Clone, Copy, Debug, PartialEq, Eq, Structural)]
pub enum InputPin {
    T1,
    T2,
    T3,
    T4,
    T5,
}

/// The type that a product update declares for its value.
#[derive(Clone, Copy, Debug, PartialEq, Eq, Structural)]
pub enum DataType {
    Boolean,
    Double,
    Integer,
    String,
}

/// The declared type with the given number: 2, 3, 4 and 6 are in use.
pub open spec fn data_type_of(code: u64) -> Option<DataType> {
    if code == 2 {
        Some(DataType::Boolean)
    } else if code == 3 {
        Some(DataType::Double)
    } else if code == 4 {
        Some(DataType::Integer)
    } else if code == 6 {
        Some(DataType::String)
    } else {
        None
    }
}

impl DataType {
    /// The declared type with the given number.
    pub fn from_code(code: u64) -> (r: Option<DataType>)
        ensures
            r == data_type_of(code),
    {
        match code {
            2 => Some(DataType::Boolean),
            3 => Some(DataType::Double),
            4 => Some(DataType::Integer),
            6 => Some(DataType::String),
            _ => None,
        }
    }
}

/// The value of a product update, read according to its declared type.
#[derive(Clone, Debug, PartialEq, Eq)]
pub enum ObservationData {
    Boolean(bool),
    Double(Double),
    Integer(i64),
    String(String),
}

/// Why the value of a product update cannot be read: the text, under the
/// type that it was declared to have.
#[derive(Debug, PartialEq, Eq)]
pub enum ParseError {
    Integer(String),
    Double(String),
}

/// What a `ObservationData` is to a contract: the same value, with sequences for its
/// strings and vectors.
pub ghost enum DataModel {
    Boolean(bool),
    Double(Seq<char>),
    Integer(i64),
    String(Seq<char>),
}

/// What a `ParseError` is to a contract: the same value, with sequences for its
/// strings and vectors.
pub ghost enum ParseErrorModel {
    Integer(Seq<char>),
    Double(Seq<char>),
}

impl View for ObservationData {
    type V = DataModel;

    open spec fn view(&self) -> DataModel {
        match self {
            ObservationData::Boolean(b) => DataModel::Boolean(*b),
            ObservationData::Double(d) => DataModel::Double(d@),
            ObservationData::Integer(n) => DataModel::Integer(*n),
            ObservationData::String(s) => DataModel::String(s@),
        }
    }
}

impl View for ParseError {
    type V = ParseErrorModel;

    open spec fn view(&self) -> ParseErrorModel {
        match self {
            ParseError::Integer(text) => ParseErrorModel::Integer(text@),
            ParseError::Double(text) => ParseErrorModel::Double(text@),
        }
    }
}

/// The value that a text stands for under a declared type.
///
/// A boolean travels as an integer and is true unless that integer is zero.
/// An integer must fit 64 bits, a double must be the text of a real number,
/// and a string is taken as it is.
pub open spec fn data_of(value: Seq<char>, data_type: DataType) -> Result<
    DataModel,
    ParseErrorModel,
> {
    match data_type {
        DataType::Boolean => match i64_of_text(value) {
            Some(n) => Ok(DataModel::Boolean(n != 0)),
            None => Err(ParseErrorModel::Integer(value)),
        },
        DataType::Double => if is_float_text(value) {
            Ok(DataModel::Double(value))
        } else {
            Err(ParseErrorModel::Double(value))
        },
        DataType::Integer => match i64_of_text(value) {
            Some(n) => Ok(DataModel::Integer(n)),
            None => Err(ParseErrorModel::Integer(value)),
        },
        DataType::String => Ok(DataModel::String(value)),
    }
}

/// The model of the outcome of reading a value.
pub open spec fn data_outcome(r: Result<ObservationData, ParseError>) -> Result<
    DataModel,
    ParseErrorModel,
> {
    match r {
        Ok(data) => Ok(data@),
        Err(e) => Err(e@),
    }
}

impl ObservationData {
    /// Reads `value` as the declared type asks.
    pub fn from_dynamic(value: String, data_type: DataType) -> (r: Result<
        ObservationData,
        ParseError,
    >)
        ensures
            data_outcome(r) == data_of(value@, data_type),
    {
        match data_type {
            DataType::Boolean => match parse_i64(value.as_str()) {
                Some(n) => Ok(ObservationData::Boolean(n != 0)),
                None => Err(ParseError::Integer(value)),
            },
            DataType::Double => match Double::new(value) {
                Ok(d) => Ok(ObservationData::Double(d)),
                Err(text) => Err(ParseError::Double(text)),
            },
            DataType::Integer => match parse_i64(value.as_str()) {
                Some(n) => Ok(ObservationData::Integer(n)),
                None => Err(ParseError::Integer(value)),
            },
            DataType::String => Ok(ObservationData::String(value)),
        }
    }
}

/// Why a charger delivers no current, as the number that it reports.
#[derive(Clone, Copy, Debug, PartialEq, Eq, PartialOrd, Ord, Structural)]
pub struct ReasonForNoCurrent(pub u16);

/// The name of a reason, for the reasons that have one.
pub open spec fn reason_name(code: u16) -> Option<Seq<char>> {
    match code {
        0 => Some("OK"@),
        1 => Some("LoadBalance: circuit too low"@),
        2 => Some("LoadBalance: dynamic circuit too low"@),
        3 => Some("LoadBalance: max dynamic offline"@),
        4 => Some("LoadBalance: circuit fuse too low"@),
        5 => Some("LoadBalance: waiting in queue"@),
        6 => Some("LoadBalance: waiting in charged queue"@),
        7 => Some("Error: illegal grid type"@),
        8 => Some("Error: not received request from car"@),
        9 => Some("Error: master communication lost"@),
        10 => Some("Error: no current from equalizer"@),
        11 => Some("Error: no current, phase disconnected"@),
        25 => Some("Error: limited by circuit fuse"@),
        26 => Some("Error: limited by circuit max current"@),
        27 => Some("Error: limited by dynamic circuit current"@),
        28 => Some("Error: limited by equalizer"@),
        29 => Some("Error: limited by circuit load balancing"@),
        30 => Some("Error: limited by offline settings"@),
        53 => Some("Info: charger disabled"@),
        54 => Some("Waiting: pending schedule"@),
        55 => Some("Waiting: pending authorization"@),
        56 => Some("Error: charger in error state"@),
        57 => Some("Error: Erratic EV"@),
        75 => Some("Cable: limited by cable rating"@),
        76 => Some("Schedule: limited by schedule"@),
        77 => Some("Charger limit: limited by charger max current"@),
        78 => Some("Charger Limit: limited by dynamic charger current"@),
        79 => Some("Car limit: limited by car not charging"@),
        80 => Some("Local: limited by local adjustment"@),
        81 => Some("Car limit: limited by car"@),
        100 => Some("Error: undefined"@),
        _ => None,
    }
}

/// The text that a reason is shown as: its name, or `Code` and the number
/// where it has none.
pub open spec fn reason_text(code: u16) -> Seq<char> {
    match reason_name(code) {
        Some(name) => name,
        None => "Code "@ + decimal(code as nat),
    }
}

impl ReasonForNoCurrent {
    /// The text that the reason is shown as.
    pub fn to_string(&self) -> (r: String)
        ensures
            r@ == reason_text(self.0),
    {
        let name: &'static str = match self.0 {
            0 => "OK",
            1 => "LoadBalance: circuit too low",
            2 => "LoadBalance: dynamic circuit too low",
            3 => "LoadBalance: max dynamic offline",
            4 => "LoadBalance: circuit fuse too low",
            5 => "LoadBalance: waiting in queue",
            6 => "LoadBalance: waiting in charged queue",
            7 => "Error: illegal grid type",
            8 => "Error: not received request from car",
            9 => "Error: master communication lost",
            10 => "Error: no current from equalizer",
            11 => "Error: no current, phase disconnected",
            25 => "Error: limited by circuit fuse",
            26 => "Error: limited by circuit max current",
            27 => "Error: limited by dynamic circuit current",
            28 => "Error: limited by equalizer",
            29 => "Error: limited by circuit load balancing",
            30 => "Error: limited by offline settings",
            53 => "Info: charger disabled",
            54 => "Waiting: pending schedule",
            55 => "Waiting: pending authorization",
            56 => "Error: charger in error state",
            57 => "Error: Erratic EV",
            75 => "Cable: limited by cable rating",
            76 => "Schedule: limited by schedule",
            77 => "Charger limit: limited by charger max current",
            78 => "Charger Limit: limited by dynamic charger current",
            79 => "Car limit: limited by car not charging",
            80 => "Local: limited by local adjustment",
            81 => "Car limit: limited by car",
            100 => "Error: undefined",
            other => {
                let mut text = "Code ".to_owned();
                text.append(decimal_string(other as u64).as_str());
                return text;
            },
        };
        name.to_owned()
    }
}

/// The operating mode with the given number: 1 to 6 are the modes from
/// `Disconnected` to `Ready`, every other number is `Unknown`.
pub open spec fn op_mode_of(mode: i64) -> ChargerOpMode {
    if mode == 1 {
        ChargerOpMode::Disconnected
    } else if mode == 2 {
        ChargerOpMode::Paused
    } else if mode == 3 {
        ChargerOpMode::Charging
    } else if mode == 4 {
        ChargerOpMode::Finished
    } else if mode == 5 {
        ChargerOpMode::Error
    } else if mode == 6 {
        ChargerOpMode::Ready
    } else {
        ChargerOpMode::Unknown
    }
}

/// The operating mode that a charger reports as `mode`.
pub fn op_mode_from_int(mode: i64) -> (r: ChargerOpMode)
    ensures
        r == op_mode_of(mode),
{
    match mode {
        1 => ChargerOpMode::Disconnected,
        2 => ChargerOpMode::Paused,
        3 => ChargerOpMode::Charging,
        4 => ChargerOpMode::Finished,
        5 => ChargerOpMode::Error,
        6 => ChargerOpMode::Ready,
        _ => ChargerOpMode::Unknown,
    }
}

/// One thing that a charger reports about itself.
#[derive(Debug, PartialEq, Eq)]
pub enum Observation {
    SelfTestResult(String),
    SelfTestDetails(String),
    WifiEvent(i64),
    ChargerOfflineReason(i64),
    CircuitMaxCurrent { phase: u8, amperes: i64 },
    SiteID(String),
    IsEnabled(bool),
    Temperature(i64),
    TriplePhase(bool),
    DynamicChargerCurrent(Double),
    ICCID(String),
    MobileNetworkOperator(String),
    ReasonForNoCurrent(ReasonForNoCurrent),
    PilotMode(PilotMode),
    SmartCharging(bool),
    CableLocked(bool),
    CableRating(Double),
    UserId(String),
    ChargerOpMode(ChargerOpMode),
    IntCurrent { pin: InputPin, current: Double },
    TotalPower(Double),
    EnergyPerHour(Double),
    LifetimeEnergy(Double),
    /// A report that this client has no name for, kept as it came.
    Unknown { code: u16, value: ObservationData },
}

/// What a `Observation` is to a contract: the same value, with sequences for its
/// strings and vectors.
pub ghost enum ObservationModel {
    SelfTestResult(Seq<char>),
    SelfTestDetails(Seq<char>),
    WifiEvent(i64),
    ChargerOfflineReason(i64),
    CircuitMaxCurrent { phase: u8, amperes: i64 },
    SiteID(Seq<char>),
    IsEnabled(bool),
    Temperature(i64),
    TriplePhase(bool),
    DynamicChargerCurrent(Seq<char>),
    ICCID(Seq<char>),
    MobileNetworkOperator(Seq<char>),
    ReasonForNoCurrent(ReasonForNoCurrent),
    PilotMode(PilotMode),
    SmartCharging(bool),
    CableLocked(bool),
    CableRating(Seq<char>),
    UserId(Seq<char>),
    ChargerOpMode(ChargerOpMode),
    IntCurrent { pin: InputPin, current: Seq<char> },
    TotalPower(Seq<char>),
    EnergyPerHour(Seq<char>),
    LifetimeEnergy(Seq<char>),
    Unknown { code: u16, value: DataModel },
}

impl View for Observation {
    type V = ObservationModel;

    open spec fn view(&self) -> ObservationModel {
        match self {
            Observation::SelfTestResult(s) => ObservationModel::SelfTestResult(s@),
            Observation::SelfTestDetails(s) => ObservationModel::SelfTestDetails(s@),
            Observation::WifiEvent(n) => ObservationModel::WifiEvent(*n),
            Observation::ChargerOfflineReason(n) => ObservationModel::ChargerOfflineReason(*n),
            Observation::CircuitMaxCurrent { phase, amperes } => {
                ObservationModel::CircuitMaxCurrent { phase: *phase, amperes: *amperes }
            },
            Observation::SiteID(s) => ObservationModel::SiteID(s@),
            Observation::IsEnabled(b) => ObservationModel::IsEnabled(*b),
            Observation::Temperature(n) => ObservationModel::Temperature(*n),
            Observation::TriplePhase(b) => ObservationModel::TriplePhase(*b),
            Observation::DynamicChargerCurrent(d) => ObservationModel::DynamicChargerCurrent(d@),
            Observation::ICCID(s) => ObservationModel::ICCID(s@),
            Observation::MobileNetworkOperator(s) => ObservationModel::MobileNetworkOperator(s@),
            Observation::ReasonForNoCurrent(r) => ObservationModel::ReasonForNoCurrent(*r),
            Observation::PilotMode(m) => ObservationModel::PilotMode(*m),
            Observation::SmartCharging(b) => ObservationModel::SmartCharging(*b),
            Observation::CableLocked(b) => ObservationModel::CableLocked(*b),
            Observation::CableRating(d) => ObservationModel::CableRating(d@),
            Observation::UserId(s) => ObservationModel::UserId(s@),
            Observation::ChargerOpMode(m) => ObservationModel::ChargerOpMode(*m),
            Observation::IntCurrent { pin, current } => ObservationModel::IntCurrent {
                pin: *pin,
                current: current@,
            },
            Observation::TotalPower(d) => ObservationModel::TotalPower(d@),
            Observation::EnergyPerHour(d) => ObservationModel::EnergyPerHour(d@),
            Observation::LifetimeEnergy(d) => ObservationModel::LifetimeEnergy(d@),
            Observation::Unknown { code, value } => ObservationModel::Unknown {
                code: *code,
                value: value@,
            },
        }
    }
}

/// The low sixteen bits of `n`, as an unsigned number.
pub open spec fn low_u16(n: i64) -> u16 {
    (n as int % 0x1_0000) as u16
}

/// What a string reported under `code` means.
pub open spec fn observation_of_text(code: u16, text: Seq<char>) -> ObservationModel {
    if code == 1 {
        ObservationModel::SelfTestResult(text)
    } else if code == 2 {
        ObservationModel::SelfTestDetails(text)
    } else if code == 26 {
        ObservationModel::SiteID(text)
    } else if code == 81 {
        ObservationModel::ICCID(text)
    } else if code == 84 {
        ObservationModel::MobileNetworkOperator(text)
    } else if code == 100 {
        ObservationModel::PilotMode(pilot_mode_of(text))
    } else if code == 107 {
        ObservationModel::UserId(text.reverse())
    } else {
        ObservationModel::Unknown { code, value: DataModel::String(text) }
    }
}

/// What an integer reported under `code` means.
pub open spec fn observation_of_integer(code: u16, n: i64) -> ObservationModel {
    if code == 10 {
        ObservationModel::WifiEvent(n)
    } else if code == 11 {
        ObservationModel::ChargerOfflineReason(n)
    } else if code == 22 {
        ObservationModel::CircuitMaxCurrent { phase: 1, amperes: n }
    } else if code == 23 {
        ObservationModel::CircuitMaxCurrent { phase: 2, amperes: n }
    } else if code == 24 {
        ObservationModel::CircuitMaxCurrent { phase: 3, amperes: n }
    } else if code == 32 {
        ObservationModel::Temperature(n)
    } else if code == 38 && n == 1 {
        ObservationModel::TriplePhase(false)
    } else if code == 38 && n == 3 {
        ObservationModel::TriplePhase(true)
    } else if code == 96 {
        ObservationModel::ReasonForNoCurrent(ReasonForNoCurrent(low_u16(n)))
    } else if code == 109 {
        ObservationModel::ChargerOpMode(op_mode_of(n))
    } else {
        ObservationModel::Unknown { code, value: DataModel::Integer(n) }
    }
}

/// What a boolean reported under `code` means.
pub open spec fn observation_of_boolean(code: u16, b: bool) -> ObservationModel {
    if code == 31 {
        ObservationModel::IsEnabled(b)
    } else if code == 102 {
        ObservationModel::SmartCharging(b)
    } else if code == 103 {
        ObservationModel::CableLocked(b)
    } else {
        ObservationModel::Unknown { code, value: DataModel::Boolean(b) }
    }
}

/// What a real number reported under `code` means.
pub open spec fn observation_of_double(code: u16, d: Seq<char>) -> ObservationModel {
    if code == 48 {
        ObservationModel::DynamicChargerCurrent(d)
    } else if code == 104 {
        ObservationModel::CableRating(d)
    } else if code == 120 {
        ObservationModel::TotalPower(d)
    } else if code == 182 {
        ObservationModel::IntCurrent { pin: InputPin::T2, current: d }
    } else if code == 183 {
        ObservationModel::IntCurrent { pin: InputPin::T3, current: d }
    } else if code == 184 {
        ObservationModel::IntCurrent { pin: InputPin::T4, current: d }
    } else if code == 185 {
        ObservationModel::IntCurrent { pin: InputPin::T5, current: d }
    } else {
        ObservationModel::Unknown { code, value: DataModel::Double(d) }
    }
}

/// What a value reported under `code` means. A code means something only
/// with a value of the type that belongs to it; every other pair is kept as
/// `Unknown`.
pub open spec fn observation_of(code: u16, data: DataModel) -> ObservationModel {
    match data {
        DataModel::String(text) => observation_of_text(code, text),
        DataModel::Integer(n) => observation_of_integer(code, n),
        DataModel::Boolean(b) => observation_of_boolean(code, b),
        DataModel::Double(d) => observation_of_double(code, d),
    }
}

/// Whether the pair of a code and a value is one that has a name.
pub open spec fn is_known(code: u16, data: DataModel) -> bool {
    match data {
        DataModel::String(_) => code == 1 || code == 2 || code == 26 || code == 81 || code == 84
            || code == 100 || code == 107,
        DataModel::Integer(n) => code == 10 || code == 11 || code == 22 || code == 23 || code
            == 24 || code == 32 || (code == 38 && (n == 1 || n == 3)) || code == 96 || code
            == 109,
        DataModel::Boolean(_) => code == 31 || code == 102 || code == 103,
        DataModel::Double(_) => code == 48 || code == 104 || code == 120 || (182 <= code
            <= 185),
    }
}

/// A pair that has a name never decodes to `Unknown`.
pub proof fn lemma_known_pair_is_named(code: u16, data: DataModel)
    requires
        is_known(code, data),
    ensures
        !(observation_of(code, data) is Unknown),
{
}

/// A pair that has no name decodes to `Unknown`, with the code and the
/// value as they came.
pub proof fn lemma_unknown_pair_is_kept(code: u16, data: DataModel)
    requires
        !is_known(code, data),
    ensures
        observation_of(code, data) == (ObservationModel::Unknown { code, value: data }),
{
}

/// The characters of `text` in reverse order.
pub fn reversed(text: &str) -> (r: String)
    ensures
        r@ == text@.reverse(),
{
    let chars = chars_of(text);
    let mut out = String::new();
    let mut i: usize = chars.len();
    proof {
        assert(text@.reverse().take(0) =~= Seq::<char>::empty());
    }
    while i > 0
        invariant
            i <= chars.len(),
            chars@ == text@,
            out@ == text@.reverse().take(chars.len() - i),
        decreases i,
    {
        i -= 1;
        let ghost done = text@.reverse().take(chars.len() - i - 1);
        push_char(&mut out, chars[i]);
        proof {
            assert(text@.reverse().take(chars.len() - i) =~= done.push(chars@[i as int]));
        }
    }
    proof {
        assert(text@.reverse().take(chars.len() as int) =~= text@.reverse());
    }
    out
}

/// The low sixteen bits of `n`.
pub fn low_bits(n: i64) -> (r: u16)
    ensures
        r == low_u16(n),
{
    let rest: i64 = n % 0x1_0000;
    if rest < 0 {
        (rest + 0x1_0000) as u16
    } else {
        rest as u16
    }
}

impl Observation {
    /// Gives the pair of a code and a value its name.
    pub fn try_from_data(code: u16, data: ObservationData) -> (r: Observation)
        ensures
            r@ == observation_of(code, data@),
    {
        match data {
            ObservationData::String(text) => match code {
                1 => Observation::SelfTestResult(text),
                2 => Observation::SelfTestDetails(text),
                26 => Observation::SiteID(text),
                81 => Observation::ICCID(text),
                84 => Observation::MobileNetworkOperator(text),
                100 => Observation::PilotMode(PilotMode::from(text.as_str())),
                107 => Observation::UserId(reversed(text.as_str())),
                _ => Observation::Unknown { code, value: ObservationData::String(text) },
            },
            ObservationData::Integer(n) => match code {
                10 => Observation::WifiEvent(n),
                11 => Observation::ChargerOfflineReason(n),
                22 => Observation::CircuitMaxCurrent { phase: 1, amperes: n },
                23 => Observation::CircuitMaxCurrent { phase: 2, amperes: n },
                24 => Observation::CircuitMaxCurrent { phase: 3, amperes: n },
                32 => Observation::Temperature(n),
                38 => if n == 1 {
                    Observation::TriplePhase(false)
                } else if n == 3 {
                    Observation::TriplePhase(true)
                } else {
                    Observation::Unknown { code, value: ObservationData::Integer(n) }
                },
                96 => Observation::ReasonForNoCurrent(ReasonForNoCurrent(low_bits(n))),
                109 => Observation::ChargerOpMode(op_mode_from_int(n)),
                _ => Observation::Unknown { code, value: ObservationData::Integer(n) },
            },
            ObservationData::Boolean(b) => match code {
                31 => Observation::IsEnabled(b),
                102 => Observation::SmartCharging(b),
                103 => Observation::CableLocked(b),
                _ => Observation::Unknown { code, value: ObservationData::Boolean(b) },
            },
            ObservationData::Double(d) => match code {
                48 => Observation::DynamicChargerCurrent(d),
                104 => Observation::CableRating(d),
                120 => Observation::TotalPower(d),
                182 => Observation::IntCurrent { pin: InputPin::T2, current: d },
                183 => Observation::IntCurrent { pin: InputPin::T3, current: d },
                184 => Observation::IntCurrent { pin: InputPin::T4, current: d },
                185 => Observation::IntCurrent { pin: InputPin::T5, current: d },
                _ => Observation::Unknown { code, value: ObservationData::Double(d) },
            },
        }
    }
}

/// One change of the state of a charger, as the stream carries it.
#[derive(Debug, PartialEq, Eq)]
pub struct ProductUpdate {
    pub data_type: DataType,
    pub id: u16,
    pub mid: String,
    pub timestamp: UtcDateTime,
    pub value: String,
}

/// What a `ProductUpdate` is to a contract: the same value, with sequences for its
/// strings and vectors.
pub ghost struct ProductUpdateModel {
    pub data_type: DataType,
    pub id: u16,
    pub mid: Seq<char>,
    pub timestamp: UtcDateTime,
    pub value: Seq<char>,
}

impl View for ProductUpdate {
    type V = ProductUpdateModel;

    open spec fn view(&self) -> ProductUpdateModel {
        ProductUpdateModel {
            data_type: self.data_type,
            id: self.id,
            mid: self.mid@,
            timestamp: self.timestamp,
            value: self.value@,
        }
    }
}

/// The declared type of an update: the member `dataType`, one of the
/// numbers of `data_type_of`.
pub open spec fn data_type_field(doc: JsonModel) -> Result<DataType, DeserializeErrorModel> {
    match number_field(doc, "dataType"@) {
        Err(e) => Err(e),
        Ok(n) => match data_type_of(n) {
            None => Err(DeserializeErrorModel::InvalidField("dataType"@)),
            Some(data_type) => Ok(data_type),
        },
    }
}

/// The feature code of an update: the member `id`, a number of sixteen
/// bits.
pub open spec fn id_field(doc: JsonModel) -> Result<u16, DeserializeErrorModel> {
    match number_field(doc, "id"@) {
        Err(e) => Err(e),
        Ok(n) => if n > u16::MAX {
            Err(DeserializeErrorModel::InvalidField("id"@))
        } else {
            Ok(n as u16)
        },
    }
}

/// The time of an update: the member `timestamp`, an ISO 8601 text.
pub open spec fn timestamp_field(doc: JsonModel) -> Result<UtcDateTime, DeserializeErrorModel> {
    match text_field(doc, "timestamp"@) {
        Err(e) => Err(e),
        Ok(text) => match date_time_of(text) {
            None => Err(DeserializeErrorModel::InvalidField("timestamp"@)),
            Some(at) => Ok(at),
        },
    }
}

/// The product update that a document is. The document must be an object
/// with the members `dataType`, `id`, `mid`, `timestamp` and `value`, which
/// are looked at in this order; other members are passed over.
pub open spec fn update_of(doc: JsonModel) -> Result<ProductUpdateModel, DeserializeErrorModel> {
    if !(doc is Object) {
        Err(DeserializeErrorModel::ExpectingObject)
    } else {
        match data_type_field(doc) {
            Err(e) => Err(e),
            Ok(data_type) => match id_field(doc) {
                Err(e) => Err(e),
                Ok(id) => match text_field(doc, "mid"@) {
                    Err(e) => Err(e),
                    Ok(mid) => match timestamp_field(doc) {
                        Err(e) => Err(e),
                        Ok(timestamp) => match text_field(doc, "value"@) {
                            Err(e) => Err(e),
                            Ok(value) => Ok(
                                ProductUpdateModel { data_type, id, mid, timestamp, value },
                            ),
                        },
                    },
                },
            },
        }
    }
}

/// The model of the outcome of reading a product update.
pub open spec fn update_outcome(r: Result<ProductUpdate, DeserializeError>) -> Result<
    ProductUpdateModel,
    DeserializeErrorModel,
> {
    match r {
        Ok(update) => Ok(update@),
        Err(e) => Err(e@),
    }
}

impl ProductUpdate {
    /// Reads a product update from a document.
    pub fn from_json(doc: &Json) -> (r: Result<ProductUpdate, DeserializeError>)
        ensures
            update_outcome(r) == update_of(doc@),
    {
        if !doc.is_object() {
            return Err(DeserializeError::ExpectingObject);
        }
        let data_type = match read_number(doc, "dataType") {
            Err(e) => {
                return Err(e);
            },
            Ok(n) => match DataType::from_code(n) {
                None => {
                    return Err(DeserializeError::InvalidField("dataType"));
                },
                Some(data_type) => data_type,
            },
        };
        let id: u16 = match read_number(doc, "id") {
            Err(e) => {
                return Err(e);
            },
            Ok(n) => if n > 0xffff {
                return Err(DeserializeError::InvalidField("id"));
            } else {
                n as u16
            },
        };
        let mid = match read_text(doc, "mid") {
            Err(e) => {
                return Err(e);
            },
            Ok(text) => text.to_owned(),
        };
        let timestamp = match read_text(doc, "timestamp") {
            Err(e) => {
                return Err(e);
            },
            Ok(text) => match UtcDateTime::parse(text) {
                None => {
                    return Err(DeserializeError::InvalidField("timestamp"));
                },
                Some(at) => at,
            },
        };
        let value = match read_text(doc, "value") {
            Err(e) => {
                return Err(e);
            },
            Ok(text) => text.to_owned(),
        };
        Ok(ProductUpdate { data_type, id, mid, timestamp, value })
    }
}

/// What a charger reported: the charger and the observation.
#[derive(Debug, PartialEq, Eq)]
pub struct Event {
    pub charger: String,
    pub observation: Observation,
}

/// What a `Event` is to a contract: the same value, with sequences for its
/// strings and vectors.
pub ghost struct EventModel {
    pub charger: Seq<char>,
    pub observation: ObservationModel,
}

impl View for Event {
    type V = EventModel;

    open spec fn view(&self) -> EventModel {
        EventModel { charger: self.charger@, observation: self.observation@ }
    }
}

/// Why no event could be had.
#[derive(Debug, PartialEq, Eq)]
pub enum ObservationError {
    Stream(StreamError),
    /// A message that has no place in the protocol, as it came.
    Protocol(Message),
    Deserialize(DeserializeError),
    Parsing(ParseError),
}

/// What a `ObservationError` is to a contract: the same value, with sequences for its
/// strings and vectors.
pub ghost enum ObservationErrorModel {
    Stream(StreamErrorModel),
    Protocol(MessageModel),
    Deserialize(DeserializeErrorModel),
    Parsing(ParseErrorModel),
}

impl View for ObservationError {
    type V = ObservationErrorModel;

    open spec fn view(&self) -> ObservationErrorModel {
        match self {
            ObservationError::Stream(e) => ObservationErrorModel::Stream(e@),
            ObservationError::Protocol(m) => ObservationErrorModel::Protocol(m@),
            ObservationError::Deserialize(e) => ObservationErrorModel::Deserialize(e@),
            ObservationError::Parsing(e) => ObservationErrorModel::Parsing(e@),
        }
    }
}

/// The event that a product update tells of: its value is read as its
/// declared type asks and named by its feature code. The time of the
/// update plays no part.
pub open spec fn event_of(update: ProductUpdateModel) -> Result<
    EventModel,
    ObservationErrorModel,
> {
    match data_of(update.value, update.data_type) {
        Err(e) => Err(ObservationErrorModel::Parsing(e)),
        Ok(data) => Ok(
            EventModel { charger: update.mid, observation: observation_of(update.id, data) },
        ),
    }
}

/// The model of the outcome of a decoding step.
pub open spec fn event_outcome(r: Result<Event, ObservationError>) -> Result<
    EventModel,
    ObservationErrorModel,
> {
    match r {
        Ok(event) => Ok(event@),
        Err(e) => Err(e@),
    }
}

/// Decodes one product update.
pub fn decode_update(update: ProductUpdate) -> (r: Result<Event, ObservationError>)
    ensures
        event_outcome(r) == event_of(update@),
{
    let ProductUpdate { data_type, id, mid, timestamp: _, value } = update;
    match ObservationData::from_dynamic(value, data_type) {
        Err(e) => Err(ObservationError::Parsing(e)),
        Ok(data) => Ok(Event { charger: mid, observation: Observation::try_from_data(id, data) }),
    }
}

/// What one message means to a subscriber. Nothing: the message is passed
/// over. That holds of pings, keep-alives, invocation results and
/// invocations of any target but `ProductUpdate`. An invocation of
/// `ProductUpdate` must carry exactly one argument, which is decoded. A
/// message of any other kind is an error.
pub open spec fn handled(message: MessageModel) -> Option<
    Result<EventModel, ObservationErrorModel>,
> {
    match message {
        MessageModel::Ping => None,
        MessageModel::Empty => None,
        MessageModel::InvocationResult { .. } => None,
        MessageModel::Invocation { target, arguments } => if target == "ProductUpdate"@ {
            if arguments.len() != 1 {
                Some(Err(ObservationErrorModel::Protocol(message)))
            } else {
                match update_of(arguments[0]) {
                    Err(e) => Some(Err(ObservationErrorModel::Deserialize(e))),
                    Ok(update) => Some(event_of(update)),
                }
            }
        } else {
            None
        },
        MessageModel::Other(_) => Some(Err(ObservationErrorModel::Protocol(message))),
    }
}

/// What a subscriber gets from the waiting documents, and the documents
/// that wait afterwards. The documents are taken oldest first until one
/// yields an event or an error; a document that is no message is an error.
/// Where every waiting document is passed over, the subscriber gets
/// nothing and no document is left.
pub open spec fn scanned(pending: Seq<JsonModel>) -> (
    Option<Result<EventModel, ObservationErrorModel>>,
    Seq<JsonModel>,
)
    decreases pending.len(),
{
    if pending.len() == 0 {
        (None, pending)
    } else {
        match classify(pending[0]) {
            Err(e) => (
                Some(Err(ObservationErrorModel::Stream(StreamErrorModel::ParseError(e)))),
                pending.drop_first(),
            ),
            Ok(message) => match handled(message) {
                Some(outcome) => (Some(outcome), pending.drop_first()),
                None => scanned(pending.drop_first()),
            },
        }
    }
}

/// A ping is invisible: with a ping waiting first, a subscriber gets what
/// it would get if the ping were not there.
pub proof fn lemma_ping_is_skipped(pending: Seq<JsonModel>)
    requires
        pending.len() > 0,
        classify(pending[0]) == Ok::<MessageModel, crate::signalr::ParseErrorModel>(
            MessageModel::Ping,
        ),
    ensures
        scanned(pending) == scanned(pending.drop_first()),
{
}

/// With a ping waiting first and a product update behind it, a subscriber
/// gets what the update yields, as if it had waited alone.
pub proof fn lemma_update_behind_ping_is_decoded(ping: JsonModel, update: JsonModel)
    requires
        classify(ping) == Ok::<MessageModel, crate::signalr::ParseErrorModel>(MessageModel::Ping),
    ensures
        scanned(seq![ping, update]) == scanned(seq![update]),
{
    let both = seq![ping, update];
    assert(both.drop_first() =~= seq![update]);
    lemma_ping_is_skipped(both);
}

/// An invocation of another target than `ProductUpdate` is passed over:
/// with one waiting first, a subscriber gets what the documents behind it
/// yield.
pub proof fn lemma_other_target_is_skipped(pending: Seq<JsonModel>)
    requires
        pending.len() > 0,
        classify(pending[0]) matches Ok(MessageModel::Invocation { target, .. }) && target
            != "ProductUpdate"@,
    ensures
        scanned(pending) == scanned(pending.drop_first()),
{
}

/// The messages that a subscriber does not get to see: those that are
/// passed over, oldest first, until one yields an event or an error.
pub open spec fn passed_over(pending: Seq<JsonModel>) -> Seq<MessageModel>
    decreases pending.len(),
{
    if pending.len() == 0 {
        Seq::empty()
    } else {
        match classify(pending[0]) {
            Err(_) => Seq::empty(),
            Ok(message) => match handled(message) {
                Some(_) => Seq::empty(),
                None => seq![message] + passed_over(pending.drop_first()),
            },
        }
    }
}

/// The models of a list of messages.
pub open spec fn message_models(messages: Seq<Message>) -> Seq<MessageModel> {
    Seq::new(messages.len(), |i: int| messages[i]@)
}

/// Decides on one message: the event or the error that it yields, or the
/// message itself where it is passed over.
pub fn handle(message: Message) -> (r: Result<Result<Event, ObservationError>, Message>)
    ensures
        match r {
            Ok(outcome) => handled(message@) == Some(event_outcome(outcome)),
            Err(back) => handled(message@) is None && back@ == message@,
        },
{
    match message {
        Message::Ping => Err(Message::Ping),
        Message::Empty => Err(Message::Empty),
        Message::InvocationResult { id, result } => Err(Message::InvocationResult { id, result }),
        Message::Invocation { target, arguments } => {
            if !target.as_str().eq("ProductUpdate") {
                return Err(Message::Invocation { target, arguments });
            }
            if arguments.len() != 1 {
                return Ok(
                    Err(ObservationError::Protocol(Message::Invocation { target, arguments })),
                );
            }
            assert(models(arguments@)[0] == arguments@[0]@);
            match ProductUpdate::from_json(&arguments[0]) {
                Err(e) => Ok(Err(ObservationError::Deserialize(e))),
                Ok(update) => Ok(decode_update(update)),
            }
        },
        Message::Other(raw) => Ok(Err(ObservationError::Protocol(Message::Other(raw)))),
    }
}

/// The text message that subscribes to the charger `id`, as it goes over
/// the wire.
pub open spec fn subscribe_frame(id: Seq<char>) -> Seq<char> {
    "{\"arguments\":["@ + quoted(id)
        + ",true],\"invocationId\":\"0\",\"target\":\"SubscribeWithCurrentState\",\"type\":1}\u{1e}"@
}

/// The call that subscribes to a charger: `SubscribeWithCurrentState`, with
/// the identifier of the charger and `true`.
pub open spec fn subscribe_model(id: Seq<char>) -> JsonModel {
    invocation_model(
        "SubscribeWithCurrentState"@,
        JsonModel::Array(seq![JsonModel::String(id), JsonModel::Bool(true)]),
    )
}

proof fn lemma_subscribe_opening()
    ensures
        "{\"arguments\":["@ == "{\"arguments\":"@ + seq!['['],
{
    reveal_strlit("{\"arguments\":[");
    reveal_strlit("{\"arguments\":");
    assert("{\"arguments\":["@ =~= "{\"arguments\":"@ + seq!['[']);
}

proof fn lemma_subscribe_closing()
    ensures
        ",true],\"invocationId\":\"0\",\"target\":\"SubscribeWithCurrentState\",\"type\":1}\u{1e}"@
            == seq![','] + "true"@ + seq![']'] + ",\"invocationId\":\"0\",\"target\":\""@
            + "SubscribeWithCurrentState"@ + "\",\"type\":1}"@ + seq![RECORD_SEPARATOR],
{
    reveal_strlit(
        ",true],\"invocationId\":\"0\",\"target\":\"SubscribeWithCurrentState\",\"type\":1}\u{1e}",
    );
    reveal_strlit("true");
    reveal_strlit(",\"invocationId\":\"0\",\"target\":\"");
    reveal_strlit("SubscribeWithCurrentState");
    reveal_strlit("\",\"type\":1}");
    assert(",true],\"invocationId\":\"0\",\"target\":\"SubscribeWithCurrentState\",\"type\":1}\u{1e}"@
        =~= seq![','] + "true"@ + seq![']'] + ",\"invocationId\":\"0\",\"target\":\""@
        + "SubscribeWithCurrentState"@ + "\",\"type\":1}"@ + seq![RECORD_SEPARATOR]);
}

proof fn lemma_subscribe_assembled(
    opening: Seq<char>,
    id: Seq<char>,
    yes: Seq<char>,
    middle: Seq<char>,
    target: Seq<char>,
    closing: Seq<char>,
)
    ensures
        (opening + (seq!['['] + (id + seq![','] + yes) + seq![']']) + middle + target
            + closing).push(RECORD_SEPARATOR) == (opening + seq!['[']) + id + (seq![','] + yes
            + seq![']'] + middle + target + closing + seq![RECORD_SEPARATOR]),
{
    assert((opening + (seq!['['] + (id + seq![','] + yes) + seq![']']) + middle + target
        + closing).push(RECORD_SEPARATOR) =~= (opening + seq!['[']) + id + (seq![','] + yes
        + seq![']'] + middle + target + closing + seq![RECORD_SEPARATOR]));
}

/// The text message that carries the call to subscribe is
/// `subscribe_frame`, character for character.
pub proof fn lemma_subscribe_frame(id: Seq<char>)
    ensures
        frame_of(subscribe_model(id)) == subscribe_frame(id),
{
    let first = JsonModel::String(id);
    let second = JsonModel::Bool(true);
    let items = seq![first, second];
    let arguments = JsonModel::Array(items);
    let target = "SubscribeWithCurrentState"@;
    assert(items.drop_last() =~= seq![first] && items.last() == second);
    assert(seq![first].drop_last() =~= Seq::<JsonModel>::empty());
    assert(items_plain(Seq::<JsonModel>::empty()));
    assert(seq![first].last() == first);
    assert(is_plain(first));
    assert(items_plain(seq![first]));
    assert(is_plain(second));
    assert(items_plain(items));
    assert(is_plain(arguments));
    assert(items_text(seq![first]) == json_text(first));
    assert(items_text(items) == items_text(items.drop_last()) + seq![','] + json_text(second));
    assert(json_text(first) == quoted(id));
    assert(json_text(second) == "true"@);
    assert(json_text(arguments) == seq!['['] + (quoted(id) + seq![','] + "true"@) + seq![']']);
    assert forall|i: int| 0 <= i < target.len() implies is_unescaped(#[trigger] target[i]) by {
        reveal_strlit("SubscribeWithCurrentState");
    }
    lemma_invocation_text(target, arguments);
    lemma_subscribe_opening();
    lemma_subscribe_closing();
    lemma_subscribe_assembled(
        "{\"arguments\":"@,
        quoted(id),
        "true"@,
        ",\"invocationId\":\"0\",\"target\":\""@,
        target,
        "\",\"type\":1}"@,
    );
}

/// The model of what the stream hands out.
pub open spec fn step_model(r: Option<Result<Event, ObservationError>>) -> Option<
    Result<EventModel, ObservationErrorModel>,
> {
    match r {
        None => None,
        Some(outcome) => Some(event_outcome(outcome)),
    }
}

/// The stream of events of one connection.
pub struct Stream {
    inner: crate::signalr::Stream,
}

impl Stream {
    /// The documents that wait, in the order in which they came.
    pub closed spec fn pending(&self) -> Seq<JsonModel> {
        self.inner.pending()
    }

    /// The address at which the connection was upgraded.
    pub closed spec fn address(&self) -> Seq<char> {
        self.inner.address()
    }

    /// The address at which the connection was upgraded.
    pub fn url(&self) -> (r: &str)
        ensures
            r@ == self.address(),
    {
        self.inner.url()
    }

    /// The stream of events of a connection that has just been opened.
    pub fn from_ws(ws: crate::stream::Stream) -> (r: Stream)
        ensures
            r.pending() == Seq::<JsonModel>::empty(),
            r.address() == ws.url_model(),
    {
        Stream { inner: crate::signalr::Stream::from_ws(ws) }
    }

    /// Takes one message that was read from the connection. The documents
    /// of a text message wait behind those that wait already; a message of
    /// another kind is an error and changes nothing.
    pub fn deliver(&mut self, incoming: Incoming) -> (r: Result<(), ObservationError>)
        ensures
            final(self).address() == old(self).address(),
            match incoming {
                Incoming::Text(text) => r is Ok && final(self).pending() == old(self).pending()
                    + documents_of(text@),
                Incoming::Other => r matches Err(e) && e@ == ObservationErrorModel::Stream(
                    StreamErrorModel::StreamError(crate::signalr::RecvErrorModel::BadMessageType),
                ) && final(self).pending() == old(self).pending(),
            },
    {
        match self.inner.deliver(incoming) {
            Ok(()) => Ok(()),
            Err(e) => Err(ObservationError::Stream(e)),
        }
    }

    /// The next event, or the error that ends the stream, from the
    /// documents that wait. `None` means that the waiting documents held
    /// neither: the caller reads the next message from the connection,
    /// delivers it and asks again.
    pub fn recv(&mut self) -> (r: Option<Result<Event, ObservationError>>)
        ensures
            step_model(r) == scanned(old(self).pending()).0,
            final(self).pending() == scanned(old(self).pending()).1,
            final(self).address() == old(self).address(),
    {
        self.recv_noting().0
    }

    /// As `recv`, and with it the messages that were passed over on the
    /// way, oldest first, for a caller that keeps a log of them.
    pub fn recv_noting(&mut self) -> (r: (Option<Result<Event, ObservationError>>, Vec<Message>))
        ensures
            step_model(r.0) == scanned(old(self).pending()).0,
            final(self).pending() == scanned(old(self).pending()).1,
            final(self).address() == old(self).address(),
            message_models(r.1@) == passed_over(old(self).pending()),
    {
        let mut skipped: Vec<Message> = Vec::new();
        proof {
            assert(message_models(skipped@) + passed_over(self.pending()) =~= passed_over(
                self.pending(),
            ));
        }
        loop
            invariant
                self.address() == old(self).address(),
                scanned(self.pending()) == scanned(old(self).pending()),
                message_models(skipped@) + passed_over(self.pending()) == passed_over(
                    old(self).pending(),
                ),
            decreases self.pending().len(),
        {
            let ghost waiting = self.pending();
            let message = match self.inner.recv() {
                None => {
                    proof {
                        assert(message_models(skipped@) + Seq::<MessageModel>::empty()
                            =~= message_models(skipped@));
                    }
                    return (None, skipped);
                },
                Some(Err(e)) => {
                    proof {
                        assert(message_models(skipped@) + Seq::<MessageModel>::empty()
                            =~= message_models(skipped@));
                    }
                    return (Some(Err(ObservationError::Stream(e))), skipped);
                },
                Some(Ok(message)) => message,
            };
            assert(classify(waiting[0]) == Ok::<MessageModel, crate::signalr::ParseErrorModel>(
                message@,
            ));
            match handle(message) {
                Ok(outcome) => {
                    proof {
                        assert(message_models(skipped@) + Seq::<MessageModel>::empty()
                            =~= message_models(skipped@));
                    }
                    return (Some(outcome), skipped);
                },
                Err(back) => {
                    let ghost before = skipped@;
                    skipped.push(back);
                    proof {
                        assert(message_models(skipped@) =~= message_models(before) + seq![back@]);
                        assert(message_models(skipped@) + passed_over(waiting.drop_first())
                            =~= message_models(before) + (seq![back@] + passed_over(
                            waiting.drop_first(),
                        )));
                    }
                },
            }
        }
    }

    /// The text message that asks the service to send the state of the
    /// charger `id` now and every change of it from now on.
    pub fn subscribe(&mut self, id: &str) -> (r: String)
        ensures
            r@ == subscribe_frame(id@),
            final(self).pending() == old(self).pending(),
            final(self).address() == old(self).address(),
    {
        let mut arguments: Vec<Json> = Vec::new();
        arguments.push(Json::String(id.to_owned()));
        arguments.push(Json::Bool(true));
        let arguments = Json::Array(arguments);
        proof {
            crate::json::lemma_items_model(arguments->Array_0@, 2);
            assert(arguments@->Array_0 =~= seq![JsonModel::String(id@), JsonModel::Bool(true)]);
            lemma_subscribe_frame(id@);
        }
        self.inner.invoke("SubscribeWithCurrentState", arguments)
    }
}

} // verus!
