//! The choice of a fee rate: the recommended rates, what each option shows
//! and stands for, and the dialog in which a user chooses.

use crate::text::{decimal, numeral, parse_decimal, push_decimal};
use vstd::prelude::*;
use vstd::string::StringExecFns;

verus! {

/// The recommended fee rates, in satoshi per virtual byte.
#[derive(Debug, Clone, Copy, PartialEq, Eq, Structural)]
pub struct FeeRates {
    pub fastest_fee: u32,
    pub half_hour_fee: u32,
    pub hour_fee: u32,
}

/// Where the fetching of the recommended rates stands.
#[derive(Debug, Clone, Copy, PartialEq, Eq, Structural)]
pub enum FeeFetchState {
    Idle,
    Fetching,
    Failed,
}

/// The fee rate options that a user can choose from.
#[derive(Debug, Clone, Copy, PartialEq, Eq, Structural)]
pub enum FeeRateOption {
    Fastest,
    HalfHour,
    Hour,
    Custom,
}

impl FeeRateOption {
    /// The name of the option.
    pub open spec fn label_text(self) -> Seq<char> {
        match self {
            FeeRateOption::Fastest => "Fast"@,
            FeeRateOption::HalfHour => "Normal"@,
            FeeRateOption::Hour => "Slow"@,
            FeeRateOption::Custom => "Custom"@,
        }
    }

    /// How long a payment at this rate is expected to wait.
    pub open spec fn description_text(self) -> Seq<char> {
        match self {
            FeeRateOption::Fastest => "~10 - 20 minutes"@,
            FeeRateOption::HalfHour => "~20 - 60 minutes"@,
            FeeRateOption::Hour => "~1 - 2 hours"@,
            FeeRateOption::Custom => "Custom"@,
        }
    }

    /// The rate that the option stands for among the recommended rates; the
    /// custom option stands for none of them.
    pub open spec fn rate_among(self, fee_rates: FeeRates) -> u32 {
        match self {
            FeeRateOption::Fastest => fee_rates.fastest_fee,
            FeeRateOption::HalfHour => fee_rates.half_hour_fee,
            FeeRateOption::Hour => fee_rates.hour_fee,
            FeeRateOption::Custom => 0,
        }
    }

    /// What the option shows as its value: the custom option its name; any
    /// other its rate with the unit, once the rates are there and no fetch
    /// is under way or has failed, and two dashes until then.
    pub open spec fn shown(self, fee_rates: Option<FeeRates>, state: FeeFetchState) -> Seq<char> {
        if self is Custom {
            "Custom"@
        } else if fee_rates is Some && state is Idle {
            decimal(self.rate_among(fee_rates.unwrap()) as nat) + " sat/vB"@
        } else {
            "--"@
        }
    }

    /// All options, in the order in which they are offered.
    pub fn all() -> (options: Vec<FeeRateOption>)
        ensures
            options@ == seq![
                FeeRateOption::Fastest,
                FeeRateOption::HalfHour,
                FeeRateOption::Hour,
                FeeRateOption::Custom,
            ],
    {
        let mut options: Vec<FeeRateOption> = Vec::new();
        options.push(FeeRateOption::Fastest);
        options.push(FeeRateOption::HalfHour);
        options.push(FeeRateOption::Hour);
        options.push(FeeRateOption::Custom);
        assert(options@ =~= seq![
            FeeRateOption::Fastest,
            FeeRateOption::HalfHour,
            FeeRateOption::Hour,
            FeeRateOption::Custom,
        ]);
        options
    }

    /// The name of the option.
    pub fn label(&self) -> (text: &'static str)
        ensures
            text@ == self.label_text(),
    {
        match self {
            FeeRateOption::Fastest => "Fast",
            FeeRateOption::HalfHour => "Normal",
            FeeRateOption::Hour => "Slow",
            FeeRateOption::Custom => "Custom",
        }
    }

    /// How long a payment at this rate is expected to wait.
    pub fn description(&self) -> (text: &'static str)
        ensures
            text@ == self.description_text(),
    {
        match self {
            FeeRateOption::Fastest => "~10 - 20 minutes",
            FeeRateOption::HalfHour => "~20 - 60 minutes",
            FeeRateOption::Hour => "~1 - 2 hours",
            FeeRateOption::Custom => "Custom",
        }
    }

    /// What the option shows as its value.
    pub fn display_value(&self, fee_rates: Option<&FeeRates>, fee_fetch_state: &FeeFetchState) -> (text:
        String)
        ensures
            text@ == self.shown(
                match fee_rates {
                    Some(rates) => Some(*rates),
                    None => None,
                },
                *fee_fetch_state,
            ),
    {
        match self {
            FeeRateOption::Custom => "Custom".to_string(),
            _ => match (fee_rates, fee_fetch_state) {
                (Some(rates), FeeFetchState::Idle) => {
                    let mut text = String::new();
                    push_decimal(&mut text, self.fee_rate(rates) as u64);
                    text.append(" sat/vB");
                    text
                },
                _ => "--".to_string(),
            },
        }
    }

    /// The rate of the option among the recommended rates.
    pub fn fee_rate(&self, fee_rates: &FeeRates) -> (rate: u32)
        ensures
            rate == self.rate_among(*fee_rates),
    {
        match self {
            FeeRateOption::Fastest => fee_rates.fastest_fee,
            FeeRateOption::HalfHour => fee_rates.half_hour_fee,
            FeeRateOption::Hour => fee_rates.hour_fee,
            FeeRateOption::Custom => 0,
        }
    }
}

/// A key that was pressed while the dialog listens.
#[derive(Debug, Clone, Copy, PartialEq, Eq, Structural)]
pub enum KeyPress {
    /// The tabulator, with or without the shift key.
    Tab { shift: bool },
    Escape,
    /// Any other key.
    Other,
}

/// What the dialog is told.
#[derive(Debug, PartialEq, Eq)]
pub enum FeeRateMessage {
    ShowModal,
    HideModal,
    Event(KeyPress),
    /// The recommended rates arrived, or could not be fetched.
    FeeRatesFetched(Result<FeeRates, String>),
    SelectFeeRate(FeeRateOption),
    /// The text of the custom rate was edited.
    CustomFeeRate(String),
    ConfirmFeeRate,
    Confirmed(u32),
}

/// What is to be done for the dialog after a message.
#[derive(Debug, Clone, Copy, PartialEq, Eq, Structural)]
pub enum FeeRateEffect {
    Nothing,
    /// Fetch the recommended rates and report `FeeRatesFetched`.
    FetchFeeRates,
    /// Move the focus to the next field.
    FocusNext,
    /// Move the focus to the field before.
    FocusPrevious,
    /// Report `Confirmed` with this rate.
    Confirm(u32),
}

/// The content of the dialog.
pub struct SelectorView {
    pub show_modal: bool,
    pub fee_rates: Option<FeeRates>,
    pub fee_fetch_state: FeeFetchState,
    pub selected_option: Option<FeeRateOption>,
    pub selected_fee_rate: Option<u32>,
    pub custom_fee_rate: Seq<char>,
}

/// The rate that the text of the custom rate writes, if it writes one.
pub open spec fn custom_rate(text: Seq<char>) -> Option<u32> {
    match numeral(text, u32::MAX as nat) {
        Some(n) => Some(n as u32),
        None => None,
    }
}

/// The dialog after it was closed: hidden, the custom text empty, the first
/// option chosen again and no rate selected.
pub open spec fn closed(v: SelectorView) -> SelectorView {
    SelectorView {
        show_modal: false,
        custom_fee_rate: Seq::empty(),
        selected_option: Some(FeeRateOption::Fastest),
        selected_fee_rate: None,
        ..v
    }
}

/// The rate that choosing an option selects: for the custom option the rate
/// that the custom text writes; for any other its recommended rate, once the
/// rates are there and no fetch is under way or has failed.
pub open spec fn rate_of_choice(v: SelectorView, option: FeeRateOption) -> Option<u32> {
    if option is Custom {
        custom_rate(v.custom_fee_rate)
    } else if v.fee_rates is Some && v.fee_fetch_state is Idle {
        Some(option.rate_among(v.fee_rates.unwrap()))
    } else {
        None
    }
}

/// The dialog after a message, and what is to be done.
///
/// Opening the dialog has the rates fetched. Rates that arrive select the
/// fastest; where they cannot be had the custom rate is what is left. A
/// confirmation needs a selected rate: it closes the dialog and reports the
/// rate. Hiding the dialog and the escape key close it without a report.
pub open spec fn after(v: SelectorView, message: FeeRateMessage) -> (SelectorView, FeeRateEffect) {
    match message {
        FeeRateMessage::ShowModal => (
            SelectorView {
                show_modal: true,
                fee_fetch_state: FeeFetchState::Fetching,
                selected_option: Some(FeeRateOption::Fastest),
                ..v
            },
            FeeRateEffect::FetchFeeRates,
        ),
        FeeRateMessage::HideModal => (closed(v), FeeRateEffect::Nothing),
        FeeRateMessage::Event(KeyPress::Tab { shift }) => (
            v,
            if shift {
                FeeRateEffect::FocusPrevious
            } else {
                FeeRateEffect::FocusNext
            },
        ),
        FeeRateMessage::Event(KeyPress::Escape) => (closed(v), FeeRateEffect::Nothing),
        FeeRateMessage::Event(KeyPress::Other) => (v, FeeRateEffect::Nothing),
        FeeRateMessage::FeeRatesFetched(Ok(rates)) => (
            SelectorView {
                fee_rates: Some(rates),
                fee_fetch_state: FeeFetchState::Idle,
                selected_option: Some(FeeRateOption::Fastest),
                selected_fee_rate: Some(rates.fastest_fee),
                ..v
            },
            FeeRateEffect::Nothing,
        ),
        FeeRateMessage::FeeRatesFetched(Err(_)) => (
            SelectorView {
                fee_fetch_state: FeeFetchState::Failed,
                selected_option: Some(FeeRateOption::Custom),
                selected_fee_rate: custom_rate(v.custom_fee_rate),
                ..v
            },
            FeeRateEffect::Nothing,
        ),
        FeeRateMessage::SelectFeeRate(option) => (
            SelectorView {
                selected_option: Some(option),
                selected_fee_rate: rate_of_choice(v, option),
                ..v
            },
            FeeRateEffect::Nothing,
        ),
        FeeRateMessage::CustomFeeRate(value) => (
            SelectorView {
                custom_fee_rate: value@,
                selected_fee_rate: if v.selected_option == Some(FeeRateOption::Custom) {
                    custom_rate(value@)
                } else {
                    v.selected_fee_rate
                },
                ..v
            },
            FeeRateEffect::Nothing,
        ),
        FeeRateMessage::ConfirmFeeRate => match v.selected_fee_rate {
            Some(rate) => (closed(v), FeeRateEffect::Confirm(rate)),
            None => (v, FeeRateEffect::Nothing),
        },
        FeeRateMessage::Confirmed(_) => (v, FeeRateEffect::Nothing),
    }
}

/// The dialog in which a user chooses a fee rate.
#[derive(Debug)]
pub struct FeeRateSelector {
    show_modal: bool,
    fee_rates: Option<FeeRates>,
    fee_fetch_state: FeeFetchState,
    selected_option: Option<FeeRateOption>,
    selected_fee_rate: Option<u32>,
    custom_fee_rate: String,
}

impl View for FeeRateSelector {
    type V = SelectorView;

    closed spec fn view(&self) -> SelectorView {
        SelectorView {
            show_modal: self.show_modal,
            fee_rates: self.fee_rates,
            fee_fetch_state: self.fee_fetch_state,
            selected_option: self.selected_option,
            selected_fee_rate: self.selected_fee_rate,
            custom_fee_rate: self.custom_fee_rate@,
        }
    }
}

impl Default for FeeRateSelector {
    /// A hidden dialog without rates, choice or custom text.
    fn default() -> (selector: Self)
        ensures
            selector@ == (SelectorView {
                show_modal: false,
                fee_rates: None,
                fee_fetch_state: FeeFetchState::Idle,
                selected_option: None,
                selected_fee_rate: None,
                custom_fee_rate: Seq::empty(),
            }),
    {
        FeeRateSelector {
            show_modal: false,
            fee_rates: None,
            fee_fetch_state: FeeFetchState::Idle,
            selected_option: None,
            selected_fee_rate: None,
            custom_fee_rate: String::new(),
        }
    }
}

impl FeeRateSelector {
    /// Whether the dialog is shown.
    pub fn is_shown(&self) -> (shown: bool)
        ensures
            shown == self@.show_modal,
    {
        self.show_modal
    }

    /// The recommended rates, once they arrived.
    pub fn fee_rates(&self) -> (rates: Option<FeeRates>)
        ensures
            rates == self@.fee_rates,
    {
        self.fee_rates
    }

    /// Where the fetching of the rates stands.
    pub fn fee_fetch_state(&self) -> (state: FeeFetchState)
        ensures
            state == self@.fee_fetch_state,
    {
        self.fee_fetch_state
    }

    /// The option that is chosen.
    pub fn selected_option(&self) -> (option: Option<FeeRateOption>)
        ensures
            option == self@.selected_option,
    {
        self.selected_option
    }

    /// The rate that is selected.
    pub fn selected_fee_rate(&self) -> (rate: Option<u32>)
        ensures
            rate == self@.selected_fee_rate,
    {
        self.selected_fee_rate
    }

    /// The text of the custom rate.
    pub fn custom_fee_rate(&self) -> (text: &str)
        ensures
            text@ == self@.custom_fee_rate,
    {
        self.custom_fee_rate.as_str()
    }

    fn custom(&self) -> (rate: Option<u32>)
        ensures
            rate == custom_rate(self@.custom_fee_rate),
    {
        match parse_decimal(self.custom_fee_rate.as_str(), 0xffff_ffff) {
            Some(n) => Some(n as u32),
            None => None,
        }
    }

    fn close(&mut self)
        ensures
            final(self)@ == closed(old(self)@),
    {
        self.show_modal = false;
        self.custom_fee_rate = String::new();
        self.selected_option = Some(FeeRateOption::Fastest);
        self.selected_fee_rate = None;
    }

    /// Takes in a message and says what is to be done.
    pub fn update(&mut self, message: FeeRateMessage) -> (effect: FeeRateEffect)
        ensures
            (final(self)@, effect) == after(old(self)@, message),
    {
        match message {
            FeeRateMessage::ShowModal => {
                self.show_modal = true;
                self.fee_fetch_state = FeeFetchState::Fetching;
                self.selected_option = Some(FeeRateOption::Fastest);
                FeeRateEffect::FetchFeeRates
            },
            FeeRateMessage::HideModal => {
                self.close();
                FeeRateEffect::Nothing
            },
            FeeRateMessage::Event(key) => match key {
                KeyPress::Tab { shift } => {
                    if shift {
                        FeeRateEffect::FocusPrevious
                    } else {
                        FeeRateEffect::FocusNext
                    }
                },
                KeyPress::Escape => {
                    self.close();
                    FeeRateEffect::Nothing
                },
                KeyPress::Other => FeeRateEffect::Nothing,
            },
            FeeRateMessage::FeeRatesFetched(result) => {
                match result {
                    Ok(rates) => {
                        self.fee_rates = Some(rates);
                        self.fee_fetch_state = FeeFetchState::Idle;
                        self.selected_option = Some(FeeRateOption::Fastest);
                        self.selected_fee_rate = Some(rates.fastest_fee);
                    },
                    Err(_) => {
                        self.fee_fetch_state = FeeFetchState::Failed;
                        self.selected_option = Some(FeeRateOption::Custom);
                        self.selected_fee_rate = self.custom();
                    },
                }
                FeeRateEffect::Nothing
            },
            FeeRateMessage::SelectFeeRate(option) => {
                let rate = match option {
                    FeeRateOption::Custom => self.custom(),
                    _ => match (self.fee_rates, self.fee_fetch_state) {
                        (Some(rates), FeeFetchState::Idle) => Some(option.fee_rate(&rates)),
                        _ => None,
                    },
                };
                self.selected_option = Some(option);
                self.selected_fee_rate = rate;
                FeeRateEffect::Nothing
            },
            FeeRateMessage::CustomFeeRate(value) => {
                self.custom_fee_rate = value;
                if let Some(FeeRateOption::Custom) = self.selected_option {
                    self.selected_fee_rate = self.custom();
                }
                FeeRateEffect::Nothing
            },
            FeeRateMessage::ConfirmFeeRate => match self.selected_fee_rate {
                Some(rate) => {
                    self.close();
                    FeeRateEffect::Confirm(rate)
                },
                None => FeeRateEffect::Nothing,
            },
            FeeRateMessage::Confirmed(_) => FeeRateEffect::Nothing,
        }
    }
}

} // verus!
