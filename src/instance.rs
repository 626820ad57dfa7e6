use vstd::prelude::*;
use crate::schema::TypeSchema;

verus! {

/// One live contract: its address, the sender its calls come from, the message
/// types its module declares, and its binding in the execution engine.
pub struct ContractInstance<E> {
    pub address: String,
    pub sender: String,
    pub schema: TypeSchema,
    pub engine: E,
}

impl<E> ContractInstance<E> {
    pub fn new(address: &str, sender: &str, schema: TypeSchema, engine: E) -> (r: ContractInstance<E>)
        ensures
            r.address@ == address@,
            r.sender@ == sender@,
            r.schema == schema,
            r.engine == engine,
    {
        ContractInstance {
            address: String::from_str(address),
            sender: String::from_str(sender),
            schema,
            engine,
        }
    }

    /// Whether calls to this contract are entered as raw JSON: its module declares
    /// no message group to build them from.
    pub fn raw_json_mode(&self) -> (r: bool)
        ensures
            r == (self.schema.groups@.len() == 0),
    {
        self.schema.is_raw_json_mode()
    }
}

} // verus!
