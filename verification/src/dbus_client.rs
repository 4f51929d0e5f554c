//! The watcher: it follows the properties at `/` and prints a line, made from
//! a format with placeholders, whenever the line differs from the last one.
//!
//! Reading the bus, and turning brightness and gamma into text, is the
//! caller's part. What is decided here is which messages count, which value a
//! message changes, what the line is, and whether it is printed.

use crate::binary64::{Binary64, ONE_BITS};
use crate::color::TEMP_DEFAULT;
use crate::property::{Property, Value};
use crate::text::{decimal, decimal_string, same_text, substitute, substituted};
use vstd::prelude::*;

verus! {

/// The watcher as contracts see it.
pub struct ClientView {
    /// The line to print, with `{t}`, `{g}`, `{b}` and `{bp}` where the values go.
    pub format: Seq<char>,
    /// The temperature last heard of.
    pub temperature: u16,
    /// The gamma last heard of.
    pub gamma: Binary64,
    /// The brightness last heard of.
    pub brightness: Binary64,
    /// The line that was printed last.
    pub prev_output: Option<Seq<char>>,
}

/// The text of each of the three values that are numbers with a fraction.
/// It is the caller who writes them: gamma and brightness with two decimals,
/// and brightness times one hundred with none.
pub struct Texts {
    pub gamma: String,
    pub brightness: String,
    pub percent: String,
}

/// The line: the format with `{t}` replaced by the temperature in decimal,
/// then `{g}` by the gamma, then `{b}` by the brightness, then `{bp}` by the
/// brightness in percent.
pub open spec fn rendered(
    format: Seq<char>,
    temperature: u16,
    gamma: Seq<char>,
    brightness: Seq<char>,
    percent: Seq<char>,
) -> Seq<char> {
    substituted(
        substituted(
            substituted(
                substituted(format, "{t}"@, decimal(temperature as nat)),
                "{g}"@,
                gamma,
            ),
            "{b}"@,
            brightness,
        ),
        "{bp}"@,
        percent,
    )
}

/// The watcher after it heard of `value`. Inversion is not part of the line.
pub open spec fn heard(client: ClientView, value: Value) -> ClientView {
    match value {
        Value::Temperature(temperature) => ClientView { temperature, ..client },
        Value::Gamma(gamma) => ClientView { gamma, ..client },
        Value::Brightness(brightness) => ClientView { brightness, ..client },
        Value::Inverted(_) => client,
    }
}

/// Whether a line is printed: always the first time, and later whenever it
/// differs from the line before.
pub open spec fn is_news(prev_output: Option<Seq<char>>, line: Seq<char>) -> bool {
    prev_output != Some(line)
}

/// Whether a message is a change of properties: a signal `PropertiesChanged`
/// of the interface `org.freedesktop.DBus.Properties`.
pub open spec fn spec_is_properties_changed(
    is_signal: bool,
    interface: Option<Seq<char>>,
    member: Option<Seq<char>>,
) -> bool {
    is_signal && interface == Some("org.freedesktop.DBus.Properties"@) && member == Some(
        "PropertiesChanged"@,
    )
}

/// The characters of a text that may be missing.
pub open spec fn optional_text(text: Option<&str>) -> Option<Seq<char>> {
    match text {
        Some(t) => Some(t@),
        None => None,
    }
}

/// The rule by which the watcher asks the bus for the daemon's changes of
/// properties.
pub fn match_rule() -> (r: &'static str)
    ensures
        r@ == "type='signal',sender='rs.wl-gammarelay',interface='org.freedesktop.DBus.Properties',member='PropertiesChanged'"@,
{
    "type='signal',sender='rs.wl-gammarelay',interface='org.freedesktop.DBus.Properties',member='PropertiesChanged'"
}

/// Whether a message is a change of properties.
pub fn is_properties_changed(is_signal: bool, interface: Option<&str>, member: Option<&str>) -> (r:
    bool)
    ensures
        r == spec_is_properties_changed(is_signal, optional_text(interface), optional_text(member)),
{
    if !is_signal {
        return false;
    }
    let interface_fits = match interface {
        Some(i) => same_text(i, "org.freedesktop.DBus.Properties"),
        None => false,
    };
    let member_fits = match member {
        Some(m) => same_text(m, "PropertiesChanged"),
        None => false,
    };
    interface_fits && member_fits
}

/// Whether a change of properties is about the colour interface.
pub fn is_gammarelay(interface: &str) -> (r: bool)
    ensures
        r == (interface@ == "rs.wl.gammarelay"@),
{
    same_text(interface, "rs.wl.gammarelay")
}

/// The three questions that the watcher puts to a running daemon when it
/// starts, each known by the serial of its message, and which of them have
/// been answered.
#[derive(Clone, Copy, Debug, PartialEq, Eq, Structural)]
pub struct Questions {
    pub temperature: u32,
    pub gamma: u32,
    pub brightness: u32,
    pub temperature_done: bool,
    pub gamma_done: bool,
    pub brightness_done: bool,
}

impl Questions {
    /// The property that a reply with this serial answers: the first of
    /// temperature, gamma and brightness whose question has that serial.
    pub open spec fn spec_asked(self, response_serial: Option<u32>) -> Option<Property> {
        if response_serial == Some(self.temperature) {
            Some(Property::Temperature)
        } else if response_serial == Some(self.gamma) {
            Some(Property::Gamma)
        } else if response_serial == Some(self.brightness) {
            Some(Property::Brightness)
        } else {
            None
        }
    }

    /// The questions after the one about `property` was answered.
    pub open spec fn with_answer(self, property: Option<Property>) -> Questions {
        match property {
            Some(Property::Temperature) => Questions { temperature_done: true, ..self },
            Some(Property::Gamma) => Questions { gamma_done: true, ..self },
            Some(Property::Brightness) => Questions { brightness_done: true, ..self },
            _ => self,
        }
    }

    /// Whether all three are answered.
    pub open spec fn spec_done(self) -> bool {
        self.temperature_done && self.gamma_done && self.brightness_done
    }

    /// Three questions that were just sent.
    pub fn new(temperature: u32, gamma: u32, brightness: u32) -> (r: Questions)
        ensures
            r == (Questions {
                temperature,
                gamma,
                brightness,
                temperature_done: false,
                gamma_done: false,
                brightness_done: false,
            }),
    {
        Questions {
            temperature,
            gamma,
            brightness,
            temperature_done: false,
            gamma_done: false,
            brightness_done: false,
        }
    }

    /// A message came in that answers the message with serial
    /// `response_serial`, if any. Says which property its body holds, and
    /// marks that question as answered; `None` if it answers none of the
    /// three.
    pub fn answered(&mut self, response_serial: Option<u32>) -> (r: Option<Property>)
        ensures
            r == old(self).spec_asked(response_serial),
            *final(self) == old(self).with_answer(r),
    {
        let serial: u32 = match response_serial {
            Some(serial) => serial,
            None => {
                return None;
            },
        };
        if serial == self.temperature {
            self.temperature_done = true;
            Some(Property::Temperature)
        } else if serial == self.gamma {
            self.gamma_done = true;
            Some(Property::Gamma)
        } else if serial == self.brightness {
            self.brightness_done = true;
            Some(Property::Brightness)
        } else {
            None
        }
    }

    #[verifier::when_used_as_spec(spec_done)]
    pub fn done(self) -> (r: bool)
        ensures
            r == self.spec_done(),
    {
        self.temperature_done && self.gamma_done && self.brightness_done
    }
}

/// What the watcher knows: the format, the values last heard of, and the line
/// that it printed last.
#[derive(Debug)]
pub struct DbusClient {
    format: String,
    temperature: u16,
    gamma: Binary64,
    brightness: Binary64,
    prev_output: Option<String>,
}

impl View for DbusClient {
    type V = ClientView;

    closed spec fn view(&self) -> ClientView {
        ClientView {
            format: self.format@,
            temperature: self.temperature,
            gamma: self.gamma,
            brightness: self.brightness,
            prev_output: match self.prev_output {
                Some(line) => Some(line@),
                None => None,
            },
        }
    }
}

impl DbusClient {
    /// A watcher that has heard nothing yet: it takes the values to be 6500 K,
    /// gamma 1.0 and full brightness, and has printed nothing.
    pub fn new(format: String) -> (r: DbusClient)
        ensures
            r@ == (ClientView {
                format: format@,
                temperature: TEMP_DEFAULT,
                gamma: Binary64 { bits: ONE_BITS },
                brightness: Binary64 { bits: ONE_BITS },
                prev_output: None,
            }),
    {
        DbusClient {
            format,
            temperature: TEMP_DEFAULT,
            gamma: Binary64::one(),
            brightness: Binary64::one(),
            prev_output: None,
        }
    }

    pub fn temperature(&self) -> (r: u16)
        ensures
            r == self@.temperature,
    {
        self.temperature
    }

    pub fn gamma(&self) -> (r: Binary64)
        ensures
            r == self@.gamma,
    {
        self.gamma
    }

    pub fn brightness(&self) -> (r: Binary64)
        ensures
            r == self@.brightness,
    {
        self.brightness
    }

    /// Takes note of a value that the daemon reported, in answer to a question
    /// or in a change of properties.
    pub fn hear(&mut self, value: Value)
        ensures
            final(self)@ == heard(old(self)@, value),
    {
        match value {
            Value::Temperature(temperature) => {
                self.temperature = temperature;
            },
            Value::Gamma(gamma) => {
                self.gamma = gamma;
            },
            Value::Brightness(brightness) => {
                self.brightness = brightness;
            },
            Value::Inverted(_) => {},
        }
    }

    /// The line for the values last heard of.
    pub fn render(&self, texts: &Texts) -> (r: String)
        ensures
            r@ == rendered(
                self@.format,
                self@.temperature,
                texts.gamma@,
                texts.brightness@,
                texts.percent@,
            ),
    {
        let temperature = decimal_string(self.temperature);
        let line = substitute(self.format.as_str(), "{t}", temperature.as_str());
        let line = substitute(line.as_str(), "{g}", texts.gamma.as_str());
        let line = substitute(line.as_str(), "{b}", texts.brightness.as_str());
        substitute(line.as_str(), "{bp}", texts.percent.as_str())
    }

    /// The line to print now, if any: the line for the values last heard of,
    /// unless it is the line that was printed last.
    pub fn print(&mut self, texts: &Texts) -> (r: Option<String>)
        ensures
            ({
                let line = rendered(
                    old(self)@.format,
                    old(self)@.temperature,
                    texts.gamma@,
                    texts.brightness@,
                    texts.percent@,
                );
                &&& final(self)@ == (ClientView { prev_output: Some(line), ..old(self)@ })
                &&& r is Some == is_news(old(self)@.prev_output, line)
                &&& r matches Some(printed) ==> printed@ == line
            }),
    {
        let output = self.render(texts);
        let news = match &self.prev_output {
            Some(prev) => *prev != output,
            None => true,
        };
        if news {
            self.prev_output = Some(output.clone());
            Some(output)
        } else {
            None
        }
    }
}

/// The watcher after it was asked to print with these texts.
pub open spec fn printed(client: ClientView, gamma: Seq<char>, brightness: Seq<char>, percent: Seq<char>) -> ClientView {
    ClientView {
        prev_output: Some(
            rendered(client.format, client.temperature, gamma, brightness, percent),
        ),
        ..client
    }
}

/// Equal lines in a row come out once: when the watcher is asked to print
/// twice and the line is the same both times, the second time prints
/// nothing, whatever was printed before and whatever the watcher heard in
/// between.
pub proof fn lemma_equal_lines_print_once(
    client: ClientView,
    gamma: Seq<char>,
    brightness: Seq<char>,
    percent: Seq<char>,
    later: ClientView,
    later_gamma: Seq<char>,
    later_brightness: Seq<char>,
    later_percent: Seq<char>,
)
    requires
        later.format == client.format,
        later.prev_output == printed(client, gamma, brightness, percent).prev_output,
        rendered(later.format, later.temperature, later_gamma, later_brightness, later_percent)
            == rendered(client.format, client.temperature, gamma, brightness, percent),
    ensures
        !is_news(
            later.prev_output,
            rendered(later.format, later.temperature, later_gamma, later_brightness, later_percent),
        ),
        printed(later, later_gamma, later_brightness, later_percent).prev_output
            == later.prev_output,
{
}

} // verus!
