//! The configuration of a feed, as plain data.

use vstd::prelude::*;

verus! {

/// Where the ticks come from.
#[derive(Debug, PartialEq, Eq)]
pub struct StreamConfig {
    /// Name of the provider, such as `Binance`.
    pub provider: String,
    /// Address of the provider's stream.
    pub url: String,
    /// Kind of stream to subscribe to, such as `kline_1m`.
    pub stream_type: String,
}

/// What to aggregate.
#[derive(Debug, PartialEq, Eq)]
pub struct Params {
    /// The symbols whose ticks are taken in.
    pub symbols: Vec<String>,
}

/// The whole configuration.
#[derive(Debug, PartialEq, Eq)]
pub struct Config {
    pub stream: StreamConfig,
    pub params: Params,
}

impl Clone for StreamConfig {
    fn clone(&self) -> (copy: StreamConfig)
        ensures
            copy == *self,
    {
        StreamConfig {
            provider: self.provider.clone(),
            url: self.url.clone(),
            stream_type: self.stream_type.clone(),
        }
    }
}

impl Clone for Params {
    fn clone(&self) -> (copy: Params)
        ensures
            copy.symbols@.len() == self.symbols@.len(),
            forall|i: int|
                0 <= i < self.symbols@.len() ==> (#[trigger] copy.symbols@[i])@ == self.symbols@[i]@,
    {
        let mut symbols: Vec<String> = Vec::new();
        let mut i: usize = 0;
        while i < self.symbols.len()
            invariant
                i <= self.symbols@.len(),
                symbols@.len() == i,
                forall|k: int| 0 <= k < i ==> (#[trigger] symbols@[k])@ == self.symbols@[k]@,
            decreases self.symbols@.len() - i,
        {
            symbols.push(self.symbols[i].clone());
            i += 1;
        }
        Params { symbols }
    }
}

impl Clone for Config {
    fn clone(&self) -> (copy: Config)
        ensures
            copy.stream == self.stream,
            copy.params.symbols@.len() == self.params.symbols@.len(),
            forall|i: int|
                0 <= i < self.params.symbols@.len() ==> (#[trigger] copy.params.symbols@[i])@
                    == self.params.symbols@[i]@,
    {
        Config { stream: self.stream.clone(), params: self.params.clone() }
    }
}

} // verus!
