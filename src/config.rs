use vstd::prelude::*;

verus! {

/// The connection and storage parameters of the sample sink.
#[derive(Clone, Debug)]
pub struct Config {
    pub host: String,
    pub user: String,
    pub password: String,
    pub namespace: String,
    pub database: String,
    pub table: String,
}

/// A startup parameter of the sink.
#[derive(Clone, Copy, Debug, PartialEq, Eq, Structural)]
pub enum ConfigKey {
    Host,
    User,
    Password,
    Namespace,
    Database,
    Table,
}

/// The name under which a parameter is given to the process.
pub open spec fn key_name(k: ConfigKey) -> &'static str {
    match k {
        ConfigKey::Host => "DB_HOST",
        ConfigKey::User => "DB_USER",
        ConfigKey::Password => "DB_PASSWORD",
        ConfigKey::Namespace => "DB_NAMESPACE",
        ConfigKey::Database => "DB_NAME",
        ConfigKey::Table => "TABLE_NAME",
    }
}

impl ConfigKey {
    /// The name under which the parameter is given to the process.
    pub fn name(&self) -> (r: &'static str)
        ensures
            r@ == key_name(*self)@,
    {
        match self {
            ConfigKey::Host => "DB_HOST",
            ConfigKey::User => "DB_USER",
            ConfigKey::Password => "DB_PASSWORD",
            ConfigKey::Namespace => "DB_NAMESPACE",
            ConfigKey::Database => "DB_NAME",
            ConfigKey::Table => "TABLE_NAME",
        }
    }
}

impl Config {
    /// Builds the configuration from the values found at startup, in the
    /// order host, user, password, namespace, database, table. The first
    /// missing value is a configuration fault and is returned as the error.
    pub fn from_values(
        host: Option<String>,
        user: Option<String>,
        password: Option<String>,
        namespace: Option<String>,
        database: Option<String>,
        table: Option<String>,
    ) -> (r: Result<Config, ConfigKey>)
        ensures
            host is None ==> r == Err::<Config, ConfigKey>(ConfigKey::Host),
            host is Some && user is None ==> r == Err::<Config, ConfigKey>(ConfigKey::User),
            host is Some && user is Some && password is None ==> r == Err::<Config, ConfigKey>(
                ConfigKey::Password,
            ),
            host is Some && user is Some && password is Some && namespace is None ==> r == Err::<
                Config,
                ConfigKey,
            >(ConfigKey::Namespace),
            host is Some && user is Some && password is Some && namespace is Some && database is None
                ==> r == Err::<Config, ConfigKey>(ConfigKey::Database),
            host is Some && user is Some && password is Some && namespace is Some && database is Some
                && table is None ==> r == Err::<Config, ConfigKey>(ConfigKey::Table),
            r is Ok <==> (host is Some && user is Some && password is Some && namespace is Some
                && database is Some && table is Some),
            r matches Ok(c) ==> {
                &&& c.host@ == host->0@
                &&& c.user@ == user->0@
                &&& c.password@ == password->0@
                &&& c.namespace@ == namespace->0@
                &&& c.database@ == database->0@
                &&& c.table@ == table->0@
            },
    {
        let host = match host {
            Some(v) => v,
            None => return Err(ConfigKey::Host),
        };
        let user = match user {
            Some(v) => v,
            None => return Err(ConfigKey::User),
        };
        let password = match password {
            Some(v) => v,
            None => return Err(ConfigKey::Password),
        };
        let namespace = match namespace {
            Some(v) => v,
            None => return Err(ConfigKey::Namespace),
        };
        let database = match database {
            Some(v) => v,
            None => return Err(ConfigKey::Database),
        };
        let table = match table {
            Some(v) => v,
            None => return Err(ConfigKey::Table),
        };
        Ok(Config { host, user, password, namespace, database, table })
    }
}

/// The settings of the bus, the power line and the cadence, fixed at startup
/// and never changed while the loop runs.
#[derive(Clone, Copy, Debug, PartialEq, Eq, Structural)]
pub struct BusSettings {
    /// Clock rate of the serial bus, in hertz.
    pub clock_hz: u32,
    /// Clock polarity and phase of the bus, from 0 to 3.
    pub mode: u8,
    /// Index of the chip-select line of the converter.
    pub chip_select: u8,
    /// Number of the output line that powers the sensor.
    pub power_line: u8,
    /// Time between the end of one cycle and the start of the next, in milliseconds.
    pub period_ms: u64,
}

impl BusSettings {
    /// The settings of the deployed sensor: a 1 MHz clock in mode 0 on the
    /// first chip-select line, power on line 17, one cycle a second.
    pub fn standard() -> (r: BusSettings)
        ensures
            r.clock_hz == 1_000_000,
            r.mode == 0,
            r.chip_select == 0,
            r.power_line == 17,
            r.period_ms == 1000,
    {
        BusSettings { clock_hz: 1_000_000, mode: 0, chip_select: 0, power_line: 17, period_ms: 1000 }
    }
}

} // verus!
