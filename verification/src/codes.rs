use vstd::prelude::*;

verus! {

/// Status codes returned by the data store API.
#[derive(Debug, PartialEq, Eq, Structural, Clone, Copy)]
pub enum DataStoreReturnCode {
    Success,
    NotAuthenticated,
    AlreadyExists,
    DoesNotExist,
    TypeMissmatch,
    NotImplemented,
    ParameterCorrupted,
    DataCorrupted,
    HandleNullPtr,
    InternalError,
    InternalChannelClosed,
    InternalChannelReceiverClosed,
    Unknown,
}

impl DataStoreReturnCode {
    /// `Success` becomes `Ok(())`, every other code is carried as the error.
    pub fn to_result(self) -> (res: Result<(), DataStoreReturnCode>)
        ensures
            self is Success ==> res == Ok::<(), DataStoreReturnCode>(()),
            !(self is Success) ==> res == Err::<(), DataStoreReturnCode>(self),
    {
        match self {
            DataStoreReturnCode::Success => Ok(()),
            e => Err(e),
        }
    }

    pub fn is_ok(&self) -> (res: bool)
        ensures
            res == (*self is Success),
    {
        match self {
            DataStoreReturnCode::Success => true,
            _ => false,
        }
    }

    /// Reads a numeric return code as the plugin side receives it: the
    /// codes 0, 1, 2, 3, 5, 6, 10 and 11 have a name, every other number is
    /// `Unknown`.
    pub fn from_code(code: u32) -> (res: DataStoreReturnCode)
        ensures
            res == spec_from_code(code),
    {
        match code {
            0 => DataStoreReturnCode::Success,
            1 => DataStoreReturnCode::NotAuthenticated,
            2 => DataStoreReturnCode::AlreadyExists,
            3 => DataStoreReturnCode::DoesNotExist,
            5 => DataStoreReturnCode::TypeMissmatch,
            6 => DataStoreReturnCode::NotImplemented,
            10 => DataStoreReturnCode::ParameterCorrupted,
            11 => DataStoreReturnCode::DataCorrupted,
            _ => DataStoreReturnCode::Unknown,
        }
    }

    /// The human readable explanation of the code. Codes that the plugin
    /// side has no name for read as `Unknown` does.
    pub fn message(&self) -> (res: String)
        ensures
            res@ == spec_message(*self),
    {
        let text: &str = match self {
            DataStoreReturnCode::Success => "Everything went correct, value ready",
            DataStoreReturnCode::NotAuthenticated => "Action denied: Lack of authority",
            DataStoreReturnCode::AlreadyExists => "Action failed: An Item with this designation already exists",
            DataStoreReturnCode::DoesNotExist => "Action failed: Can not access item that does not exist",
            DataStoreReturnCode::TypeMissmatch => "Action failed: You can only use the same type for updates as you created it with (or use change_property_type)",
            DataStoreReturnCode::NotImplemented => "Action denied: This function has to still be implemented",
            DataStoreReturnCode::ParameterCorrupted => "Action failed: Parameters are inproperly formated or otherwise incorrect",
            DataStoreReturnCode::DataCorrupted => "Error: Unable to parse input Data. This indicates a corrupted PluginHandle or Datastore, which are non recoverable",
            _ => "Action failed for an unknown reason. Plugin is too out of date to know this message, possibly the reason for the Error",
        };
        text.to_string()
    }
}

/// The code that a number stands for on the plugin side.
pub open spec fn spec_from_code(code: u32) -> DataStoreReturnCode {
    if code == 0 {
        DataStoreReturnCode::Success
    } else if code == 1 {
        DataStoreReturnCode::NotAuthenticated
    } else if code == 2 {
        DataStoreReturnCode::AlreadyExists
    } else if code == 3 {
        DataStoreReturnCode::DoesNotExist
    } else if code == 5 {
        DataStoreReturnCode::TypeMissmatch
    } else if code == 6 {
        DataStoreReturnCode::NotImplemented
    } else if code == 10 {
        DataStoreReturnCode::ParameterCorrupted
    } else if code == 11 {
        DataStoreReturnCode::DataCorrupted
    } else {
        DataStoreReturnCode::Unknown
    }
}

/// The explanation shown for each code.
pub open spec fn spec_message(c: DataStoreReturnCode) -> Seq<char> {
    match c {
        DataStoreReturnCode::Success => "Everything went correct, value ready"@,
        DataStoreReturnCode::NotAuthenticated => "Action denied: Lack of authority"@,
        DataStoreReturnCode::AlreadyExists => "Action failed: An Item with this designation already exists"@,
        DataStoreReturnCode::DoesNotExist => "Action failed: Can not access item that does not exist"@,
        DataStoreReturnCode::TypeMissmatch => "Action failed: You can only use the same type for updates as you created it with (or use change_property_type)"@,
        DataStoreReturnCode::NotImplemented => "Action denied: This function has to still be implemented"@,
        DataStoreReturnCode::ParameterCorrupted => "Action failed: Parameters are inproperly formated or otherwise incorrect"@,
        DataStoreReturnCode::DataCorrupted => "Error: Unable to parse input Data. This indicates a corrupted PluginHandle or Datastore, which are non recoverable"@,
        _ => "Action failed for an unknown reason. Plugin is too out of date to know this message, possibly the reason for the Error"@,
    }
}

/// The answer of an API call: the value is meaningful only when the code is
/// `Success`; otherwise it holds the type's default.
pub struct ReturnValue<T> {
    pub code: DataStoreReturnCode,
    pub value: T,
}

impl<T: Default> ReturnValue<T> {
    /// An answer that carries the error `code` and a default value.
    pub fn new_from_error(code: DataStoreReturnCode) -> (res: ReturnValue<T>)
        ensures
            res.code == code,
            call_ensures(T::default, (), res.value),
    {
        ReturnValue { code, value: T::default() }
    }

    /// `Ok(v)` answers `Success` with `v`; `Err(e)` answers `e` with a
    /// default value.
    pub fn from_result(r: Result<T, DataStoreReturnCode>) -> (res: ReturnValue<T>)
        ensures
            match r {
                Ok(v) => res.code == DataStoreReturnCode::Success && res.value == v,
                Err(e) => res.code == e && call_ensures(T::default, (), res.value),
            },
    {
        match r {
            Ok(v) => ReturnValue { code: DataStoreReturnCode::Success, value: v },
            Err(e) => ReturnValue { code: e, value: T::default() },
        }
    }
}

impl<T> ReturnValue<T> {
    /// How the plugin side reads an answer: the value when the code is
    /// `Success`, the code otherwise.
    pub fn into_result(self) -> (r: Result<T, DataStoreReturnCode>)
        ensures
            self.code is Success ==> r == Ok::<T, DataStoreReturnCode>(self.value),
            !(self.code is Success) ==> r == Err::<T, DataStoreReturnCode>(self.code),
    {
        match self.code {
            DataStoreReturnCode::Success => Ok(self.value),
            c => Err(c),
        }
    }
}

/// The kinds of message the host passes to a plugin's update function.
#[derive(Debug, Clone, Copy, PartialEq, Eq, Structural)]
pub enum MessageType {
    Lock,
    Unlock,
    Shutdown,
    StartupFinished,
    OtherPluginStarted,
    InternalMessage,
    PluginMessagePtr,
    EventTriggered,
    EventUnsubscribed,
    ActionRecv,
    ActionCallback,
}

} // verus!
