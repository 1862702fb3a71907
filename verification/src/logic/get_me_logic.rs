//! The profile read: the authenticated wallet's row and its transports.

use vstd::prelude::*;
use vstd::string::*;

use crate::model::transport::owned_by;
use crate::model::DbError;
use crate::service::Context;
use crate::types::GetMeResponse;
use crate::types::Transport;

verus! {

/// Reads the profile of the wallet named by a verified token: ids, the push
/// credential, and every transport with its binding state.
pub fn get_me(ctx: &Context, address: &str) -> (r: Result<GetMeResponse, DbError>)
    requires
        ctx.inv(),
    ensures
        r is Ok <==> ctx.users.has_wallet(address@),
        match r {
            Err(e) => e is NotFound,
            Ok(me) => {
                let u = ctx.users.user_by_wallet(address@);
                let ts = ctx.transports.rows@.filter(owned_by(u.id));
                &&& me.id == u.id
                &&& me.open_id@ == u.open_id@
                &&& me.project_id@ == u.project_id@
                &&& me.transports@.len() == ts.len()
                &&& forall|k: int|
                    0 <= k < ts.len() ==> {
                        &&& (#[trigger] me.transports@[k]).transport_type@
                            == ts[k].transport_type@
                        &&& me.transports@[k].chat_id == ts[k].chat_id
                        &&& me.transports@[k].connected == ts[k].connected
                    }
            },
        },
{
    let user = match ctx.users.find_one_by_wallet_address(address) {
        Ok(u) => u,
        Err(e) => {
            return Err(e);
        },
    };
    let transports = ctx.transports.find_all_by_user_id(user.id);
    let mut out: Vec<Transport> = Vec::new();
    let n = transports.len();
    let mut k: usize = 0;
    while k < n
        invariant
            0 <= k <= n,
            n == transports@.len(),
            out@.len() == k,
            forall|j: int|
                0 <= j < k ==> {
                    &&& (#[trigger] out@[j]).transport_type@ == transports@[j].transport_type@
                    &&& out@[j].chat_id == transports@[j].chat_id
                    &&& out@[j].connected == transports@[j].connected
                },
        decreases n - k,
    {
        let t = &transports[k];
        out.push(
            Transport {
                transport_type: t.transport_type.clone(),
                chat_id: match &t.chat_id {
                    Some(c) => Some(c.clone()),
                    None => None,
                },
                connected: t.connected,
            },
        );
        k = k + 1;
    }
    Ok(
        GetMeResponse {
            id: user.id,
            open_id: user.open_id,
            project_id: user.project_id,
            transports: out,
        },
    )
}

} // verus!
